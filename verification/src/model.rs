//! The mathematical model of a world: the number of entities and the
//! columns in the order in which they were made, with the steps that the
//! operations of a world take on it.

use crate::access::{Access, BorrowError};
use crate::column::ColumnView;
use crate::components::{Component, ComponentKind};
use crate::render::{decimal, with_item};
use vstd::prelude::*;

verus! {

/// The index of the first column of `kind` among `columns`.
pub open spec fn first_of_kind(columns: Seq<ColumnView>, kind: ComponentKind) -> Option<int>
    decreases columns.len(),
{
    if columns.len() == 0 {
        None
    } else {
        match first_of_kind(columns.drop_last(), kind) {
            Some(column) => Some(column),
            None => if columns.last().kind == kind {
                Some(columns.len() - 1)
            } else {
                None
            },
        }
    }
}

/// The debug forms of the components of `entity`, column by column, the
/// empty ones left out and the others joined by a comma and a space.
pub open spec fn debug_items(columns: Seq<ColumnView>, entity: int) -> Seq<char>
    decreases columns.len(),
{
    if columns.len() == 0 {
        Seq::empty()
    } else {
        with_item(debug_items(columns.drop_last(), entity), columns.last().format_at(entity))
    }
}

/// The last component of `kind` in `components`, if there is one.
pub open spec fn last_of_kind(components: Seq<Component>, kind: ComponentKind) -> Option<Component>
    decreases components.len(),
{
    if components.len() == 0 {
        None
    } else if components.last().kind() == kind {
        Some(components.last())
    } else {
        last_of_kind(components.drop_last(), kind)
    }
}

/// What a world is, mathematically.
pub struct WorldView {
    /// The number of entities created so far.
    pub entities: nat,
    /// The columns, in the order in which they were made.
    pub columns: Seq<ColumnView>,
}

impl WorldView {
    /// Every column is well-formed and has exactly one slot per entity, and
    /// no two columns are of the same type.
    pub open spec fn wf(self) -> bool {
        &&& forall|column: int|
            0 <= column < self.columns.len() ==> (#[trigger] self.columns[column]).wf()
        &&& forall|column: int|
            0 <= column < self.columns.len() ==> (#[trigger] self.columns[column]).slots.len()
                == self.entities
        &&& forall|first: int, second: int|
            0 <= first < second < self.columns.len() ==> (#[trigger] self.columns[first]).kind != (
            #[trigger] self.columns[second]).kind
    }

    /// The world without entities and without columns.
    pub open spec fn empty() -> WorldView {
        WorldView { entities: 0, columns: Seq::empty() }
    }

    /// The index of the column of `kind`, if one was made.
    pub open spec fn column_of(self, kind: ComponentKind) -> Option<int> {
        first_of_kind(self.columns, kind)
    }

    /// What the slot of `entity` holds in the column of `kind`; nothing
    /// where no such column was made.
    pub open spec fn slot(self, kind: ComponentKind, entity: int) -> Option<Component> {
        match self.column_of(kind) {
            Some(column) => self.columns[column].slots[entity],
            None => None,
        }
    }

    /// This world with one more entity: every column has an empty slot for
    /// it.
    pub open spec fn grown(self) -> WorldView {
        WorldView {
            entities: self.entities + 1,
            columns: Seq::new(self.columns.len(), |column: int| self.columns[column].grown()),
        }
    }

    /// This world with `component` attached to `entity`: written over the
    /// slot in the column of its type, or, where no such column was made,
    /// into a new last column whose other slots are empty.
    pub open spec fn with_component(self, entity: int, component: Component) -> WorldView {
        match self.column_of(component.kind()) {
            Some(column) => WorldView {
                columns: self.columns.update(
                    column,
                    self.columns[column].with_slot(entity, component),
                ),
                ..self
            },
            None => WorldView {
                columns: self.columns.push(
                    ColumnView::fresh(component.kind(), self.entities).with_slot(
                        entity,
                        component,
                    ),
                ),
                ..self
            },
        }
    }

    /// This world with each of `components` attached to `entity`, in the
    /// order of the list.
    pub open spec fn with_components(self, entity: int, components: Seq<Component>) -> WorldView
        decreases components.len(),
    {
        if components.len() == 0 {
            self
        } else {
            self.with_components(entity, components.drop_last()).with_component(
                entity,
                components.last(),
            )
        }
    }

    /// This world after a new entity was created with `components`.
    pub open spec fn spawned(self, components: Seq<Component>) -> WorldView {
        self.grown().with_components(self.entities as int, components)
    }

    /// This world with another record of the views of one column.
    pub open spec fn with_access(self, column: int, access: Access) -> WorldView {
        WorldView {
            columns: self.columns.update(column, self.columns[column].with_access(access)),
            ..self
        }
    }

    /// What a request for a shared view of the column of `kind` meets: the
    /// index of the column that the view is of, nothing where no such
    /// column was made, or the reason why the view is refused.
    pub open spec fn shared_grant(self, kind: ComponentKind) -> Result<Option<int>, BorrowError> {
        match self.column_of(kind) {
            Some(column) => match self.columns[column].access.shared() {
                Ok(_) => Ok(Some(column)),
                Err(reason) => Err(reason),
            },
            None => Ok(None),
        }
    }

    /// This world after a request for a shared view of the column of
    /// `kind`: the view is on record where it was granted, and nothing has
    /// changed where it was not.
    pub open spec fn sharing(self, kind: ComponentKind) -> WorldView {
        match self.column_of(kind) {
            Some(column) => match self.columns[column].access.shared() {
                Ok(next) => self.with_access(column, next),
                Err(_) => self,
            },
            None => self,
        }
    }

    /// What a request for the exclusive view of the column of `kind`
    /// meets, as `shared_grant` says it for a shared one.
    pub open spec fn exclusive_grant(self, kind: ComponentKind) -> Result<
        Option<int>,
        BorrowError,
    > {
        match self.column_of(kind) {
            Some(column) => match self.columns[column].access.locked() {
                Ok(_) => Ok(Some(column)),
                Err(reason) => Err(reason),
            },
            None => Ok(None),
        }
    }

    /// This world after a request for the exclusive view of the column of
    /// `kind`.
    pub open spec fn locking(self, kind: ComponentKind) -> WorldView {
        match self.column_of(kind) {
            Some(column) => match self.columns[column].access.locked() {
                Ok(next) => self.with_access(column, next),
                Err(_) => self,
            },
            None => self,
        }
    }

    /// A shared view of `column`, which is of `kind`, is outstanding.
    pub open spec fn lends_shared(self, column: int, kind: ComponentKind) -> bool {
        &&& 0 <= column < self.columns.len()
        &&& self.columns[column].kind == kind
        &&& self.columns[column].access is Shared
    }

    /// The exclusive view of `column`, which is of `kind`, is outstanding.
    pub open spec fn lends_exclusive(self, column: int, kind: ComponentKind) -> bool {
        &&& 0 <= column < self.columns.len()
        &&& self.columns[column].kind == kind
        &&& self.columns[column].access is Exclusive
    }

    /// The views that are outstanding of the column of `kind`; none where no
    /// such column was made.
    pub open spec fn access(self, kind: ComponentKind) -> Access {
        match self.column_of(kind) {
            Some(column) => self.columns[column].access,
            None => Access::Free,
        }
    }

    /// This world holds what `before` holds: as many entities, the same
    /// columns in the same places, and the same slots. Only the records of
    /// views may differ.
    pub open spec fn same_data(self, before: WorldView) -> bool {
        &&& self.entities == before.entities
        &&& forall|kind: ComponentKind| (#[trigger] self.column_of(kind)) == before.column_of(kind)
        &&& forall|kind: ComponentKind, entity: int|
            (#[trigger] self.slot(kind, entity)) == before.slot(kind, entity)
    }

    /// The views of every column but that of `kind` are on record as they
    /// are in `before`.
    pub open spec fn same_access_but(self, before: WorldView, kind: ComponentKind) -> bool {
        forall|other: ComponentKind|
            other != kind ==> (#[trigger] self.access(other)) == before.access(other)
    }

    /// This world has grown from `before`: every column of `before` is
    /// where it was, the views of every column are on record as they were,
    /// and every view that was live is live.
    pub open spec fn grows_from(self, before: WorldView) -> bool {
        &&& self.entities >= before.entities
        &&& forall|kind: ComponentKind|
            (#[trigger] before.column_of(kind)) is Some ==> self.column_of(kind)
                == before.column_of(kind)
        &&& forall|kind: ComponentKind| (#[trigger] self.access(kind)) == before.access(kind)
        &&& self.keeps_live(before)
    }

    /// Every view that is live in `before` is live in this world.
    pub open spec fn keeps_live(self, before: WorldView) -> bool {
        &&& forall|column: int, kind: ComponentKind| #[trigger]
            before.lends_shared(column, kind) ==> self.lends_shared(column, kind)
        &&& forall|column: int, kind: ComponentKind| #[trigger]
            before.lends_exclusive(column, kind) ==> self.lends_exclusive(column, kind)
    }

    /// The diagnostic line of `entity`: its number, and in brackets the
    /// debug forms of its components in the order of the columns.
    pub open spec fn debug_line(self, entity: nat) -> Seq<char> {
        "Entity("@ + decimal(entity) + "): ["@ + debug_items(self.columns, entity as int) + "]"@
    }
}

/// One operation on a world, as the model sees it.
pub enum Step {
    /// An entity is created without components.
    NewEntity,
    /// An entity is created with a list of components.
    Spawn { components: Seq<Component> },
    /// A component is attached to an entity, by the world or through the
    /// exclusive view of its column.
    Attach { entity: int, component: Component },
    /// A shared view of the column of a type is asked for.
    Share { kind: ComponentKind },
    /// The exclusive view of the column of a type is asked for.
    Lock { kind: ComponentKind },
    /// A shared view of a column is handed back.
    Unshare { column: int },
    /// The exclusive view of a column is handed back.
    Unlock { column: int },
}

impl WorldView {
    /// This world after `step`. A step that names an entity or a column
    /// that does not exist is not taken.
    pub open spec fn step(self, step: Step) -> WorldView {
        match step {
            Step::NewEntity => self.grown(),
            Step::Spawn { components } => self.spawned(components),
            Step::Attach { entity, component } => if 0 <= entity < self.entities {
                self.with_component(entity, component)
            } else {
                self
            },
            Step::Share { kind } => self.sharing(kind),
            Step::Lock { kind } => self.locking(kind),
            Step::Unshare { column } => if 0 <= column < self.columns.len() {
                self.with_access(column, self.columns[column].access.unshared())
            } else {
                self
            },
            Step::Unlock { column } => if 0 <= column < self.columns.len() {
                self.with_access(column, self.columns[column].access.unlocked())
            } else {
                self
            },
        }
    }

    /// The world that `steps` lead to from the empty world.
    pub open spec fn reached(steps: Seq<Step>) -> WorldView
        decreases steps.len(),
    {
        if steps.len() == 0 {
            WorldView::empty()
        } else {
            WorldView::reached(steps.drop_last()).step(steps.last())
        }
    }
}

/// `first_of_kind` finds a column of `kind` that no column of `kind`
/// precedes, and finds none only where there is none.
pub proof fn lemma_first_of_kind(columns: Seq<ColumnView>, kind: ComponentKind)
    ensures
        match first_of_kind(columns, kind) {
            Some(column) => {
                &&& 0 <= column < columns.len()
                &&& columns[column].kind == kind
                &&& forall|before: int|
                    0 <= before < column ==> (#[trigger] columns[before]).kind != kind
            },
            None => forall|column: int|
                0 <= column < columns.len() ==> (#[trigger] columns[column]).kind != kind,
        },
    decreases columns.len(),
{
    if columns.len() > 0 {
        lemma_first_of_kind(columns.drop_last(), kind);
        assert(forall|column: int|
            0 <= column < columns.len() - 1 ==> columns.drop_last()[column] == columns[column]);
    }
}

/// A column of `kind` that no column of `kind` precedes is the one that
/// `first_of_kind` finds.
pub proof fn lemma_first_of_kind_is(columns: Seq<ColumnView>, kind: ComponentKind, column: int)
    requires
        0 <= column < columns.len(),
        columns[column].kind == kind,
        forall|before: int| 0 <= before < column ==> (#[trigger] columns[before]).kind != kind,
    ensures
        first_of_kind(columns, kind) == Some(column),
{
    lemma_first_of_kind(columns, kind);
}

/// Where no column is of `kind`, `first_of_kind` finds none.
pub proof fn lemma_first_of_kind_none(columns: Seq<ColumnView>, kind: ComponentKind)
    requires
        forall|column: int| 0 <= column < columns.len() ==> (#[trigger] columns[column]).kind != kind,
    ensures
        first_of_kind(columns, kind) is None,
{
    lemma_first_of_kind(columns, kind);
}

/// Which column `first_of_kind` finds depends on the types of the columns
/// alone.
pub proof fn lemma_first_of_kind_by_kinds(
    columns: Seq<ColumnView>,
    others: Seq<ColumnView>,
    kind: ComponentKind,
)
    requires
        columns.len() == others.len(),
        forall|column: int|
            0 <= column < columns.len() ==> (#[trigger] columns[column]).kind == others[column].kind,
    ensures
        first_of_kind(columns, kind) == first_of_kind(others, kind),
{
    lemma_first_of_kind(columns, kind);
    lemma_first_of_kind(others, kind);
    match first_of_kind(columns, kind) {
        Some(column) => {
            assert(others[column].kind == columns[column].kind);
            assert forall|before: int| 0 <= before < column implies (#[trigger] others[before]).kind
                != kind by {
                assert(columns[before].kind == others[before].kind);
            }
            lemma_first_of_kind_is(others, kind, column);
        },
        None => {
            assert forall|column: int| 0 <= column < others.len() implies (
            #[trigger] others[column]).kind != kind by {
                assert(columns[column].kind == others[column].kind);
            }
            lemma_first_of_kind_none(others, kind);
        },
    }
}

} // verus!
