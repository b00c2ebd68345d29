//! The world: the registry that owns the columns and the entity count, and
//! the views through which the slots of a column are read and written.

use crate::access::{Access, BorrowError};
use crate::column::ComponentVec;
use crate::components::{AnyComponent, Component, ComponentKind};
use crate::laws::{
    lemma_attached, lemma_column_is_found, lemma_grown_grows, lemma_grown_slots, lemma_grown_wf,
    lemma_locking_wf, lemma_request_frame, lemma_requests_keep_live, lemma_sharing_wf,
    lemma_spawned_columns, lemma_spawned_grows, lemma_spawned_slots, lemma_spawned_wf,
    lemma_with_access_frame, lemma_with_access_wf, lemma_with_component_columns,
};
use crate::model::{
    debug_items, last_of_kind, lemma_first_of_kind, lemma_first_of_kind_is, lemma_first_of_kind_none, WorldView,
};
use crate::render::{push_decimal, push_item};
use std::marker::PhantomData;
use vstd::pervasive::unreached;
use vstd::prelude::*;
use vstd::string::StringExecFns;

verus! {

/// The registry of entities and of the columns that hold their components.
#[derive(Debug)]
pub struct World {
    entities_count: usize,
    component_vecs: Vec<ComponentVec>,
}

impl View for World {
    type V = WorldView;

    closed spec fn view(&self) -> WorldView {
        WorldView {
            entities: self.entities_count as nat,
            columns: Seq::new(
                self.component_vecs.len() as nat,
                |column: int| self.component_vecs[column]@,
            ),
        }
    }
}

/// A shared view of the column of `C`: read-only access to its slots, for
/// as long as it is not handed back.
pub struct Ref<C> {
    column: usize,
    marker: PhantomData<C>,
}

/// The exclusive view of the column of `C`: access to read and to write its
/// slots, for as long as it is not handed back.
pub struct RefMut<C> {
    column: usize,
    marker: PhantomData<C>,
}

impl World {
    /// The invariant of a world: that of its model, which says that every
    /// column has one slot per entity.
    pub open spec fn wf(&self) -> bool {
        self@.wf()
    }

    /// The empty world.
    pub fn new() -> (world: Self)
        ensures
            world.wf(),
            world@ == WorldView::empty(),
    {
        let world = Self { entities_count: 0, component_vecs: Vec::new() };
        assert(world@.columns =~= Seq::empty());
        world
    }

    /// The number of entities created so far.
    pub fn entities_count(&self) -> (count: usize)
        ensures
            count == self@.entities,
    {
        self.entities_count
    }

    /// The index of the column of `kind`, if one was made.
    fn find(&self, kind: ComponentKind) -> (found: Option<usize>)
        ensures
            match found {
                Some(column) => self@.column_of(kind) == Some(column as int) && column
                    < self.component_vecs.len(),
                None => self@.column_of(kind) is None,
            },
    {
        let mut column: usize = 0;
        while column < self.component_vecs.len()
            invariant
                column <= self.component_vecs.len(),
                forall|before: int|
                    0 <= before < column ==> (#[trigger] self@.columns[before]).kind != kind,
            decreases self.component_vecs.len() - column,
        {
            if self.component_vecs[column].kind() == kind {
                proof {
                    lemma_first_of_kind_is(self@.columns, kind, column as int);
                }
                return Some(column);
            }
            column += 1;
        }
        proof {
            lemma_first_of_kind_none(self@.columns, kind);
        }
        None
    }

    /// Creates an entity without components and returns it: the next row
    /// number, for which every column gets an empty slot.
    pub fn new_entity(&mut self) -> (entity: usize)
        requires
            old(self).wf(),
            old(self)@.entities < usize::MAX,
        ensures
            final(self).wf(),
            entity == old(self)@.entities,
            final(self)@ == old(self)@.grown(),
            final(self)@.entities == old(self)@.entities + 1,
            final(self)@.grows_from(old(self)@),
            forall|kind: ComponentKind, other: int|
                0 <= other <= old(self)@.entities ==> #[trigger] final(self)@.slot(kind, other) == (
                if other < old(self)@.entities {
                    old(self)@.slot(kind, other)
                } else {
                    None
                }),
    {
        proof {
            lemma_grown_grows(old(self)@);
            assert forall|kind: ComponentKind, other: int|
                0 <= other <= old(self)@.entities implies #[trigger] old(self)@.grown().slot(
                kind,
                other,
            ) == (if other < old(self)@.entities {
                old(self)@.slot(kind, other)
            } else {
                None
            }) by {
                lemma_grown_slots(old(self)@, kind, other);
            }
        }
        let entity_id = self.entities_count;
        let mut column: usize = 0;
        assert forall|other: int| 0 <= other < self.component_vecs.len() implies (
        #[trigger] self.component_vecs[other]).wf() by {
            assert(self@.columns[other].wf());
        }
        while column < self.component_vecs.len()
            invariant
                column <= self.component_vecs.len(),
                self.entities_count == old(self).entities_count,
                self.component_vecs.len() == old(self).component_vecs.len(),
                forall|grown: int|
                    0 <= grown < column ==> (#[trigger] self.component_vecs[grown])@ == old(
                        self,
                    ).component_vecs[grown]@.grown(),
                forall|other: int|
                    column <= other < self.component_vecs.len() ==> (
                    #[trigger] self.component_vecs[other]) == old(self).component_vecs[other],
                forall|other: int|
                    0 <= other < self.component_vecs.len() ==> (
                    #[trigger] old(self).component_vecs[other]).wf(),
            decreases self.component_vecs.len() - column,
        {
            self.component_vecs[column].push_none();
            column += 1;
        }
        self.entities_count += 1;
        proof {
            assert(self@.columns =~= old(self)@.grown().columns);
            lemma_grown_wf(old(self)@);
        }
        entity_id
    }

    /// Attaches `component` to `entity`: written over the slot in the
    /// column of its type, or, where no such column was made, into a new
    /// column whose other slots are empty.
    pub fn add_component_to_entity<C: AnyComponent>(&mut self, entity: usize, component: C)
        requires
            old(self).wf(),
            entity < old(self)@.entities,
        ensures
            final(self).wf(),
            final(self)@ == old(self)@.with_component(entity as int, component.erased()),
            final(self)@.entities == old(self)@.entities,
            final(self)@.grows_from(old(self)@),
            final(self)@.column_of(C::spec_kind()) is Some,
            forall|kind: ComponentKind, other: int|
                0 <= other < old(self)@.entities ==> #[trigger] final(self)@.slot(kind, other) == (
                if kind == C::spec_kind() && other == entity {
                    Some(component.erased())
                } else {
                    old(self)@.slot(kind, other)
                }),
    {
        let boxed = component.into_box();
        proof {
            lemma_attached(old(self)@, entity as int, boxed);
        }
        match self.find(C::kind()) {
            Some(column) => {
                proof {
                    lemma_first_of_kind(self@.columns, boxed.kind());
                }
                assert(self@.columns[column as int].wf());
                self.component_vecs[column].set(entity, boxed);
                assert(self@.columns =~= old(self)@.with_component(
                    entity as int,
                    boxed,
                ).columns);
            },
            None => {
                let mut new_component_vec = ComponentVec::new(C::kind(), self.entities_count);
                new_component_vec.set(entity, boxed);
                self.component_vecs.push(new_component_vec);
                assert(self@.columns =~= old(self)@.with_component(
                    entity as int,
                    boxed,
                ).columns);
            },
        }
    }

    /// Creates an entity with `components` and returns it: the next row
    /// number, for which every column gets an empty slot before the
    /// components are attached in the order of the list.
    pub fn spawn(&mut self, components: Vec<Component>) -> (entity: usize)
        requires
            old(self).wf(),
            old(self)@.entities < usize::MAX,
        ensures
            final(self).wf(),
            entity == old(self)@.entities,
            final(self)@ == old(self)@.spawned(components@),
            final(self)@.entities == old(self)@.entities + 1,
            final(self)@.grows_from(old(self)@),
            forall|kind: ComponentKind|
                (#[trigger] last_of_kind(components@, kind)) is Some ==> final(self)@.column_of(
                    kind,
                ) is Some,
            forall|kind: ComponentKind, other: int|
                0 <= other <= old(self)@.entities ==> #[trigger] final(self)@.slot(kind, other) == (
                if other == old(self)@.entities {
                    last_of_kind(components@, kind)
                } else {
                    old(self)@.slot(kind, other)
                }),
    {
        proof {
            lemma_spawned_wf(old(self)@, components@);
            lemma_spawned_grows(old(self)@, components@);
            assert forall|kind: ComponentKind|
                (#[trigger] last_of_kind(components@, kind)) is Some implies old(self)@.spawned(
                components@,
            ).column_of(kind) is Some by {
                lemma_spawned_columns(old(self)@, components@, kind);
            }
            assert forall|kind: ComponentKind, other: int|
                0 <= other <= old(self)@.entities implies #[trigger] old(self)@.spawned(
                components@,
            ).slot(kind, other) == (if other == old(self)@.entities {
                last_of_kind(components@, kind)
            } else {
                old(self)@.slot(kind, other)
            }) by {
                lemma_spawned_slots(old(self)@, components@, kind, other);
            }
        }
        let entity_id = self.new_entity();
        let ghost grown = self@;
        for component in iter: components.into_iter()
            invariant
                self.wf(),
                iter.seq() == components@,
                entity_id < grown.entities,
                self@.entities == grown.entities,
                self@ == grown.with_components(entity_id as int, components@.take(iter.index())),
        {
            proof {
                let attached = components@.take(iter.index() + 1);
                assert(attached.drop_last() =~= components@.take(iter.index()));
                assert(attached.last() == component);
            }
            component.insert_into_entity(self, entity_id);
        }
        assert(components@.take(components@.len() as int) =~= components@);
        entity_id
    }

    /// Asks for a shared view of the column of `C`, and says why where it
    /// is refused. Where no such column was made there is nothing to view,
    /// which is no error. Where the exclusive view of the column is
    /// outstanding, or more shared views than can be counted, the request is
    /// refused and nothing changes.
    pub fn try_borrow_compvec<C: AnyComponent>(&mut self) -> (view: Result<
        Option<Ref<C>>,
        BorrowError,
    >)
        requires
            old(self).wf(),
        ensures
            final(self).wf(),
            final(self)@ == old(self)@.sharing(C::spec_kind()),
            final(self)@.same_data(old(self)@),
            final(self)@.same_access_but(old(self)@, C::spec_kind()),
            final(self)@.access(C::spec_kind()) == (match old(self)@.access(
                C::spec_kind(),
            ).shared() {
                Ok(next) if old(self)@.column_of(C::spec_kind()) is Some => next,
                _ => old(self)@.access(C::spec_kind()),
            }),
            final(self)@.keeps_live(old(self)@),
            match old(self)@.shared_grant(C::spec_kind()) {
                Ok(Some(column)) => view matches Ok(Some(granted)) && granted.column() == column
                    && granted.is_live(final(self)),
                Ok(None) => view matches Ok(None),
                Err(reason) => view matches Err(refused) && refused == reason,
            },
    {
        proof {
            lemma_sharing_wf(self@, C::spec_kind());
            lemma_requests_keep_live(self@, C::spec_kind());
            lemma_request_frame(self@, C::spec_kind());
        }
        match self.find(C::kind()) {
            Some(column) => {
                proof {
                    lemma_first_of_kind(self@.columns, C::spec_kind());
                    assert(self@.columns[column as int].wf());
                }
                match self.component_vecs[column].share() {
                    Ok(()) => {
                        assert(self@.columns =~= old(self)@.sharing(C::spec_kind()).columns);
                        Ok(Some(Ref { column, marker: PhantomData }))
                    },
                    Err(reason) => {
                        assert(self@.columns =~= old(self)@.columns);
                        Err(reason)
                    },
                }
            },
            None => Ok(None),
        }
    }

    /// Asks for the exclusive view of the column of `C`, and says why where
    /// it is refused. Where no such column was made there is nothing to
    /// view, which is no error. Where any view of the column is outstanding
    /// the request is refused and nothing changes.
    pub fn try_borrow_compvec_mut<C: AnyComponent>(&mut self) -> (view: Result<
        Option<RefMut<C>>,
        BorrowError,
    >)
        requires
            old(self).wf(),
        ensures
            final(self).wf(),
            final(self)@ == old(self)@.locking(C::spec_kind()),
            final(self)@.same_data(old(self)@),
            final(self)@.same_access_but(old(self)@, C::spec_kind()),
            final(self)@.access(C::spec_kind()) == (match old(self)@.access(
                C::spec_kind(),
            ).locked() {
                Ok(next) if old(self)@.column_of(C::spec_kind()) is Some => next,
                _ => old(self)@.access(C::spec_kind()),
            }),
            final(self)@.keeps_live(old(self)@),
            match old(self)@.exclusive_grant(C::spec_kind()) {
                Ok(Some(column)) => view matches Ok(Some(granted)) && granted.column() == column
                    && granted.is_live(final(self)),
                Ok(None) => view matches Ok(None),
                Err(reason) => view matches Err(refused) && refused == reason,
            },
    {
        proof {
            lemma_locking_wf(self@, C::spec_kind());
            lemma_requests_keep_live(self@, C::spec_kind());
            lemma_request_frame(self@, C::spec_kind());
        }
        match self.find(C::kind()) {
            Some(column) => {
                proof {
                    lemma_first_of_kind(self@.columns, C::spec_kind());
                    assert(self@.columns[column as int].wf());
                }
                match self.component_vecs[column].lock() {
                    Ok(()) => {
                        assert(self@.columns =~= old(self)@.locking(C::spec_kind()).columns);
                        Ok(Some(RefMut { column, marker: PhantomData }))
                    },
                    Err(reason) => {
                        assert(self@.columns =~= old(self)@.columns);
                        Err(reason)
                    },
                }
            },
            None => Ok(None),
        }
    }

    /// A shared view of the column of `C`, or nothing where no such column
    /// was made. The request must be one that is not refused: the exclusive
    /// view of the column is not outstanding, and one more shared view can
    /// be counted.
    pub fn borrow_compvec<C: AnyComponent>(&mut self) -> (view: Option<Ref<C>>)
        requires
            old(self).wf(),
            old(self)@.access(C::spec_kind()).shared() is Ok,
        ensures
            final(self).wf(),
            final(self)@ == old(self)@.sharing(C::spec_kind()),
            final(self)@.same_data(old(self)@),
            final(self)@.same_access_but(old(self)@, C::spec_kind()),
            final(self)@.access(C::spec_kind()) == (match old(self)@.access(
                C::spec_kind(),
            ).shared() {
                Ok(next) if old(self)@.column_of(C::spec_kind()) is Some => next,
                _ => old(self)@.access(C::spec_kind()),
            }),
            final(self)@.keeps_live(old(self)@),
            match old(self)@.column_of(C::spec_kind()) {
                Some(column) => view matches Some(granted) && granted.column() == column
                    && granted.is_live(final(self)),
                None => view is None,
            },
    {
        match self.try_borrow_compvec::<C>() {
            Ok(view) => view,
            Err(_) => unreached(),
        }
    }

    /// The exclusive view of the column of `C`, or nothing where no such
    /// column was made. The request must be one that is not refused: no
    /// view of the column is outstanding.
    pub fn borrow_compvec_mut<C: AnyComponent>(&mut self) -> (view: Option<RefMut<C>>)
        requires
            old(self).wf(),
            old(self)@.access(C::spec_kind()).locked() is Ok,
        ensures
            final(self).wf(),
            final(self)@ == old(self)@.locking(C::spec_kind()),
            final(self)@.same_data(old(self)@),
            final(self)@.same_access_but(old(self)@, C::spec_kind()),
            final(self)@.access(C::spec_kind()) == (match old(self)@.access(
                C::spec_kind(),
            ).locked() {
                Ok(next) if old(self)@.column_of(C::spec_kind()) is Some => next,
                _ => old(self)@.access(C::spec_kind()),
            }),
            final(self)@.keeps_live(old(self)@),
            match old(self)@.column_of(C::spec_kind()) {
                Some(column) => view matches Some(granted) && granted.column() == column
                    && granted.is_live(final(self)),
                None => view is None,
            },
    {
        match self.try_borrow_compvec_mut::<C>() {
            Ok(view) => view,
            Err(_) => unreached(),
        }
    }

    /// The diagnostic line of `entity`: its number, and in brackets the
    /// debug forms of its components, in the order in which the columns
    /// were made.
    pub fn debug_entity(&self, entity: &usize) -> (line: String)
        ensures
            line@ == self@.debug_line(*entity as nat),
    {
        let mut items = String::new();
        let mut column: usize = 0;
        while column < self.component_vecs.len()
            invariant
                column <= self.component_vecs.len(),
                items@ == debug_items(self@.columns.take(column as int), *entity as int),
            decreases self.component_vecs.len() - column,
        {
            let output = self.component_vecs[column].fmt_entity(*entity);
            proof {
                let seen = self@.columns.take(column + 1);
                assert(seen.drop_last() =~= self@.columns.take(column as int));
                assert(seen.last() == self@.columns[column as int]);
            }
            push_item(&mut items, output.as_str());
            column += 1;
        }
        assert(self@.columns.take(column as int) =~= self@.columns);
        let mut line = String::new();
        line.append("Entity(");
        push_decimal(&mut line, *entity as u64);
        line.append("): [");
        line.append(items.as_str());
        line.append("]");
        assert(line@ =~= self@.debug_line(*entity as nat));
        line
    }
}

impl<C: AnyComponent> Ref<C> {
    /// The index of the column that this is a view of.
    pub closed spec fn column(&self) -> int {
        self.column as int
    }

    /// `world` has a shared view of this column on record.
    pub open spec fn spec_is_live(&self, world: &World) -> bool {
        world@.lends_shared(self.column(), C::spec_kind())
    }

    /// Tells whether `world` has a shared view of this column on record.
    #[verifier::when_used_as_spec(spec_is_live)]
    pub fn is_live(&self, world: &World) -> (live: bool)
        ensures
            live == self.spec_is_live(world),
    {
        if self.column < world.component_vecs.len() {
            let column = &world.component_vecs[self.column];
            column.kind() == C::kind() && match column.access() {
                Access::Shared(_) => true,
                _ => false,
            }
        } else {
            false
        }
    }

    /// The number of slots of the column.
    pub fn len(&self, world: &World) -> (len: usize)
        requires
            world.wf(),
            self.is_live(world),
        ensures
            len == world@.entities,
            len == world@.columns[self.column()].slots.len(),
    {
        world.component_vecs[self.column].len()
    }

    /// Reads the slot of `entity`.
    pub fn get<'a>(&self, world: &'a World, entity: usize) -> (slot: Option<&'a C>)
        requires
            world.wf(),
            self.is_live(world),
            entity < world@.entities,
        ensures
            match slot {
                Some(component) => world@.slot(C::spec_kind(), entity as int) == Some(
                    component.erased(),
                ),
                None => world@.slot(C::spec_kind(), entity as int) is None,
            },
    {
        proof {
            lemma_first_of_kind(world@.columns, C::spec_kind());
        }
        match world.component_vecs[self.column].get(entity) {
            Some(boxed) => C::downcast(boxed),
            None => None,
        }
    }

    /// Hands the view back.
    pub fn release(self, world: &mut World)
        requires
            old(world).wf(),
            self.is_live(old(world)),
        ensures
            final(world).wf(),
            final(world)@ == old(world)@.with_access(
                self.column(),
                old(world)@.columns[self.column()].access.unshared(),
            ),
            final(world)@.same_data(old(world)@),
            final(world)@.same_access_but(old(world)@, C::spec_kind()),
            final(world)@.access(C::spec_kind()) == old(world)@.access(C::spec_kind()).unshared(),
    {
        proof {
            lemma_column_is_found(world@, self.column(), C::spec_kind());
            lemma_with_access_frame(
                world@,
                self.column(),
                world@.columns[self.column()].access.unshared(),
            );
            assert(world@.columns[self.column()].wf());
            lemma_with_access_wf(
                world@,
                self.column(),
                world@.columns[self.column()].access.unshared(),
            );
        }
        world.component_vecs[self.column].unshare();
        assert(world@.columns =~= old(world)@.with_access(
            self.column(),
            old(world)@.columns[self.column()].access.unshared(),
        ).columns);
    }
}

impl<C: AnyComponent> RefMut<C> {
    /// The index of the column that this is the view of.
    pub closed spec fn column(&self) -> int {
        self.column as int
    }

    /// `world` has the exclusive view of this column on record.
    pub open spec fn spec_is_live(&self, world: &World) -> bool {
        world@.lends_exclusive(self.column(), C::spec_kind())
    }

    /// Tells whether `world` has the exclusive view of this column on
    /// record.
    #[verifier::when_used_as_spec(spec_is_live)]
    pub fn is_live(&self, world: &World) -> (live: bool)
        ensures
            live == self.spec_is_live(world),
    {
        if self.column < world.component_vecs.len() {
            let column = &world.component_vecs[self.column];
            column.kind() == C::kind() && match column.access() {
                Access::Exclusive => true,
                _ => false,
            }
        } else {
            false
        }
    }

    /// The number of slots of the column.
    pub fn len(&self, world: &World) -> (len: usize)
        requires
            world.wf(),
            self.is_live(world),
        ensures
            len == world@.entities,
            len == world@.columns[self.column()].slots.len(),
    {
        world.component_vecs[self.column].len()
    }

    /// Reads the slot of `entity`.
    pub fn get<'a>(&self, world: &'a World, entity: usize) -> (slot: Option<&'a C>)
        requires
            world.wf(),
            self.is_live(world),
            entity < world@.entities,
        ensures
            match slot {
                Some(component) => world@.slot(C::spec_kind(), entity as int) == Some(
                    component.erased(),
                ),
                None => world@.slot(C::spec_kind(), entity as int) is None,
            },
    {
        proof {
            lemma_first_of_kind(world@.columns, C::spec_kind());
        }
        match world.component_vecs[self.column].get(entity) {
            Some(boxed) => C::downcast(boxed),
            None => None,
        }
    }

    /// Writes `component` into the slot of `entity`, over what was there.
    pub fn set(&self, world: &mut World, entity: usize, component: C)
        requires
            old(world).wf(),
            self.is_live(old(world)),
            entity < old(world)@.entities,
        ensures
            final(world).wf(),
            self.is_live(final(world)),
            final(world)@ == old(world)@.with_component(entity as int, component.erased()),
            final(world)@.entities == old(world)@.entities,
            final(world)@.grows_from(old(world)@),
            forall|kind: ComponentKind|
                (#[trigger] final(world)@.column_of(kind)) == old(world)@.column_of(kind),
            forall|kind: ComponentKind, other: int|
                0 <= other < old(world)@.entities ==> #[trigger] final(world)@.slot(kind, other)
                    == (if kind == C::spec_kind() && other == entity {
                    Some(component.erased())
                } else {
                    old(world)@.slot(kind, other)
                }),
    {
        let boxed = component.into_box();
        proof {
            lemma_first_of_kind(world@.columns, C::spec_kind());
            lemma_attached(world@, entity as int, boxed);
            assert forall|kind: ComponentKind|
                (#[trigger] world@.with_component(entity as int, boxed).column_of(kind))
                    == world@.column_of(kind) by {
                lemma_with_component_columns(world@, entity as int, boxed, kind);
            }
            assert(world@.columns[self.column()].wf());
        }
        world.component_vecs[self.column].set(entity, boxed);
        assert(world@.columns =~= old(world)@.with_component(entity as int, boxed).columns);
    }

    /// Hands the view back.
    pub fn release(self, world: &mut World)
        requires
            old(world).wf(),
            self.is_live(old(world)),
        ensures
            final(world).wf(),
            final(world)@ == old(world)@.with_access(self.column(), Access::Free),
            final(world)@.same_data(old(world)@),
            final(world)@.same_access_but(old(world)@, C::spec_kind()),
            final(world)@.access(C::spec_kind()) == Access::Free,
    {
        proof {
            lemma_column_is_found(world@, self.column(), C::spec_kind());
            lemma_with_access_frame(world@, self.column(), Access::Free);
            assert(world@.columns[self.column()].wf());
            lemma_with_access_wf(world@, self.column(), Access::Free);
        }
        world.component_vecs[self.column].unlock();
        assert(world@.columns =~= old(world)@.with_access(self.column(), Access::Free).columns);
    }
}

impl Component {
    /// Attaches this component to `entity` in `world`, in the column of the
    /// type of the value inside.
    pub fn insert_into_entity(self, world: &mut World, entity: usize)
        requires
            old(world).wf(),
            entity < old(world)@.entities,
        ensures
            final(world).wf(),
            final(world)@ == old(world)@.with_component(entity as int, self),
            final(world)@.entities == old(world)@.entities,
            final(world)@.grows_from(old(world)@),
            final(world)@.column_of(self.kind()) is Some,
            forall|kind: ComponentKind, other: int|
                0 <= other < old(world)@.entities ==> #[trigger] final(world)@.slot(kind, other)
                    == (if kind == self.kind() && other == entity {
                    Some(self)
                } else {
                    old(world)@.slot(kind, other)
                }),
    {
        match self {
            Component::Health(health) => world.add_component_to_entity(entity, health),
            Component::Position(position) => world.add_component_to_entity(entity, position),
            Component::Velocity(velocity) => world.add_component_to_entity(entity, velocity),
            Component::Sprite(sprite) => world.add_component_to_entity(entity, sprite),
            Component::PlayerTag(tag) => world.add_component_to_entity(entity, tag),
            Component::EnemyTag(tag) => world.add_component_to_entity(entity, tag),
        }
    }
}

} // verus!
