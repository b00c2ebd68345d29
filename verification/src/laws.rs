//! What holds of every world, proved over the model.

use crate::access::{Access, BorrowError};
use crate::components::{AnyComponent, Component, ComponentKind};
use crate::model::{
    last_of_kind, lemma_first_of_kind, lemma_first_of_kind_by_kinds, lemma_first_of_kind_is, Step,
    WorldView,
};
use vstd::prelude::*;

verus! {

/// In a well-formed world every column has exactly as many slots as there
/// are entities.
pub proof fn lemma_columns_match_entities(world: WorldView, column: int)
    requires
        world.wf(),
        0 <= column < world.columns.len(),
    ensures
        world.columns[column].slots.len() == world.entities,
{
}

/// In a well-formed world a column is the column of its type: looking for
/// the type finds this column and no other.
pub proof fn lemma_column_is_found(world: WorldView, column: int, kind: ComponentKind)
    requires
        world.wf(),
        0 <= column < world.columns.len(),
        world.columns[column].kind == kind,
    ensures
        world.column_of(kind) == Some(column),
{
    lemma_first_of_kind(world.columns, kind);
}

/// The empty world is well-formed.
pub proof fn lemma_empty_wf()
    ensures
        WorldView::empty().wf(),
{
}

/// Creating an entity keeps a world well-formed: every column grows with
/// the number of entities.
pub proof fn lemma_grown_wf(world: WorldView)
    requires
        world.wf(),
    ensures
        world.grown().wf(),
        world.grown().entities == world.entities + 1,
        world.grown().columns.len() == world.columns.len(),
{
    let grown = world.grown();
    assert forall|column: int| 0 <= column < grown.columns.len() implies (
    #[trigger] grown.columns[column]).wf() && grown.columns[column].slots.len()
        == grown.entities by {
        assert(world.columns[column].wf());
        assert(grown.columns[column] == world.columns[column].grown());
    }
    assert forall|first: int, second: int| 0 <= first < second < grown.columns.len() implies (
    #[trigger] grown.columns[first]).kind != (#[trigger] grown.columns[second]).kind by {
        assert(world.columns[first].kind != world.columns[second].kind);
    }
}

/// Attaching a component to an entity that exists keeps a world
/// well-formed, whether the column of its type was there or is made for it.
pub proof fn lemma_with_component_wf(world: WorldView, entity: int, component: Component)
    requires
        world.wf(),
        0 <= entity < world.entities,
    ensures
        world.with_component(entity, component).wf(),
        world.with_component(entity, component).entities == world.entities,
{
    let after = world.with_component(entity, component);
    lemma_first_of_kind(world.columns, component.kind());
    match world.column_of(component.kind()) {
        Some(target) => {
            assert forall|column: int| 0 <= column < after.columns.len() implies (
            #[trigger] after.columns[column]).wf() && after.columns[column].slots.len()
                == after.entities by {
                assert(world.columns[column].wf());
            }
            assert forall|first: int, second: int|
                0 <= first < second < after.columns.len() implies (
            #[trigger] after.columns[first]).kind != (#[trigger] after.columns[second]).kind by {
                assert(world.columns[first].kind != world.columns[second].kind);
            }
        },
        None => {
            let last = world.columns.len() as int;
            assert forall|column: int| 0 <= column < after.columns.len() implies (
            #[trigger] after.columns[column]).wf() && after.columns[column].slots.len()
                == after.entities by {
                if column < last {
                    assert(world.columns[column].wf());
                }
            }
            assert forall|first: int, second: int|
                0 <= first < second < after.columns.len() implies (
            #[trigger] after.columns[first]).kind != (#[trigger] after.columns[second]).kind by {
                if second < last {
                    assert(world.columns[first].kind != world.columns[second].kind);
                } else {
                    assert(world.columns[first].kind != component.kind());
                }
            }
        },
    }
}

/// Attaching a list of components to an entity that exists keeps a world
/// well-formed.
pub proof fn lemma_with_components_wf(world: WorldView, entity: int, components: Seq<Component>)
    requires
        world.wf(),
        0 <= entity < world.entities,
    ensures
        world.with_components(entity, components).wf(),
        world.with_components(entity, components).entities == world.entities,
    decreases components.len(),
{
    if components.len() > 0 {
        lemma_with_components_wf(world, entity, components.drop_last());
        lemma_with_component_wf(
            world.with_components(entity, components.drop_last()),
            entity,
            components.last(),
        );
    }
}

/// Spawning an entity with any list of components keeps a world
/// well-formed, and the entity is the one more that the world then has.
pub proof fn lemma_spawned_wf(world: WorldView, components: Seq<Component>)
    requires
        world.wf(),
    ensures
        world.spawned(components).wf(),
        world.spawned(components).entities == world.entities + 1,
{
    lemma_grown_wf(world);
    lemma_with_components_wf(world.grown(), world.entities as int, components);
}

/// Granting or taking back a view keeps a world well-formed, and changes
/// neither a slot nor the type of a column.
pub proof fn lemma_with_access_wf(world: WorldView, column: int, access: Access)
    requires
        world.wf(),
        0 <= column < world.columns.len(),
        access.wf(),
    ensures
        world.with_access(column, access).wf(),
        forall|kind: ComponentKind|
            world.with_access(column, access).column_of(kind) == world.column_of(kind),
        forall|kind: ComponentKind, entity: int|
            world.with_access(column, access).slot(kind, entity) == world.slot(kind, entity),
{
    let after = world.with_access(column, access);
    assert forall|other: int| 0 <= other < after.columns.len() implies (
    #[trigger] after.columns[other]).wf() && after.columns[other].slots.len()
        == after.entities by {
        assert(world.columns[other].wf());
    }
    assert forall|first: int, second: int| 0 <= first < second < after.columns.len() implies (
    #[trigger] after.columns[first]).kind != (#[trigger] after.columns[second]).kind by {
        assert(world.columns[first].kind != world.columns[second].kind);
    }
    assert forall|kind: ComponentKind| after.column_of(kind) == world.column_of(kind) by {
        lemma_first_of_kind_by_kinds(after.columns, world.columns, kind);
    }
    assert forall|kind: ComponentKind, entity: int|
        after.slot(kind, entity) == world.slot(kind, entity) by {
        lemma_first_of_kind(world.columns, kind);
    }
}

/// Creating an entity touches no slot of the entities that were there, and
/// leaves every slot of the new one empty.
pub proof fn lemma_grown_slots(world: WorldView, kind: ComponentKind, entity: int)
    requires
        world.wf(),
        0 <= entity <= world.entities,
    ensures
        world.grown().column_of(kind) == world.column_of(kind),
        world.grown().slot(kind, entity) == (if entity < world.entities {
            world.slot(kind, entity)
        } else {
            None
        }),
{
    lemma_first_of_kind(world.columns, kind);
    lemma_first_of_kind_by_kinds(world.grown().columns, world.columns, kind);
}

/// Attaching a component writes one slot and no other: the slot of that
/// entity in the column of the component's type.
pub proof fn lemma_with_component_slots(
    world: WorldView,
    entity: int,
    component: Component,
    kind: ComponentKind,
    other: int,
)
    requires
        world.wf(),
        0 <= entity < world.entities,
        0 <= other < world.entities,
    ensures
        world.with_component(entity, component).slot(kind, other) == (if kind == component.kind()
            && other == entity {
            Some(component)
        } else {
            world.slot(kind, other)
        }),
{
    let after = world.with_component(entity, component);
    lemma_first_of_kind(world.columns, component.kind());
    lemma_first_of_kind(world.columns, kind);
    match world.column_of(component.kind()) {
        Some(column) => {
            lemma_first_of_kind_by_kinds(after.columns, world.columns, kind);
        },
        None => {
            let last = world.columns.len() as int;
            if kind == component.kind() {
                lemma_first_of_kind_is(after.columns, kind, last);
            } else {
                lemma_first_of_kind(after.columns, kind);
                match world.column_of(kind) {
                    Some(column) => {
                        assert(after.columns[column] == world.columns[column]);
                        assert forall|before: int| 0 <= before < column implies (
                        #[trigger] after.columns[before]).kind != kind by {
                            assert(after.columns[before] == world.columns[before]);
                        }
                        lemma_first_of_kind_is(after.columns, kind, column);
                    },
                    None => {
                        assert forall|column: int| 0 <= column < after.columns.len() implies (
                        #[trigger] after.columns[column]).kind != kind by {
                            if column < last {
                                assert(after.columns[column] == world.columns[column]);
                            }
                        }
                    },
                }
            }
        },
    }
}

/// Attaching a list of components to an entity leaves in each of its slots
/// the last component of that type in the list, and touches no slot that no
/// component of the list is for.
pub proof fn lemma_with_components_slots(
    world: WorldView,
    entity: int,
    components: Seq<Component>,
    kind: ComponentKind,
    other: int,
)
    requires
        world.wf(),
        0 <= entity < world.entities,
        0 <= other < world.entities,
    ensures
        world.with_components(entity, components).slot(kind, other) == (if other == entity
            && last_of_kind(components, kind) is Some {
            last_of_kind(components, kind)
        } else {
            world.slot(kind, other)
        }),
    decreases components.len(),
{
    if components.len() > 0 {
        let before = world.with_components(entity, components.drop_last());
        lemma_with_components_wf(world, entity, components.drop_last());
        lemma_with_components_slots(world, entity, components.drop_last(), kind, other);
        lemma_with_component_slots(before, entity, components.last(), kind, other);
    }
}

/// What a spawn leaves behind: the slots of the entities that were there
/// are untouched, and each slot of the new entity holds the last component
/// of its type in the list, or nothing where the list has none.
pub proof fn lemma_spawned_slots(
    world: WorldView,
    components: Seq<Component>,
    kind: ComponentKind,
    entity: int,
)
    requires
        world.wf(),
        0 <= entity <= world.entities,
    ensures
        world.spawned(components).slot(kind, entity) == (if entity == world.entities {
            last_of_kind(components, kind)
        } else {
            world.slot(kind, entity)
        }),
{
    lemma_grown_wf(world);
    lemma_grown_slots(world, kind, entity);
    lemma_with_components_slots(world.grown(), world.entities as int, components, kind, entity);
}

/// Columns stay where they are: attaching a component removes no column,
/// and leaves each column that was there with its type and with the views
/// that are outstanding. A view that was live stays live.
pub proof fn lemma_with_component_keeps_views(
    world: WorldView,
    entity: int,
    component: Component,
    column: int,
)
    requires
        world.wf(),
        0 <= entity < world.entities,
        0 <= column < world.columns.len(),
    ensures
        world.with_component(entity, component).columns.len() >= world.columns.len(),
        world.with_component(entity, component).columns[column].kind
            == world.columns[column].kind,
        world.with_component(entity, component).columns[column].access
            == world.columns[column].access,
{
    lemma_first_of_kind(world.columns, component.kind());
}

/// Columns stay where they are while a list of components is attached.
pub proof fn lemma_with_components_keeps_views(
    world: WorldView,
    entity: int,
    components: Seq<Component>,
    column: int,
)
    requires
        world.wf(),
        0 <= entity < world.entities,
        0 <= column < world.columns.len(),
    ensures
        world.with_components(entity, components).columns.len() >= world.columns.len(),
        world.with_components(entity, components).columns[column].kind
            == world.columns[column].kind,
        world.with_components(entity, components).columns[column].access
            == world.columns[column].access,
    decreases components.len(),
{
    if components.len() > 0 {
        let before = world.with_components(entity, components.drop_last());
        lemma_with_components_wf(world, entity, components.drop_last());
        lemma_with_components_keeps_views(world, entity, components.drop_last(), column);
        lemma_with_component_keeps_views(before, entity, components.last(), column);
    }
}

/// Columns stay where they are through a spawn: no column is removed, and
/// each column that was there keeps its type and the views that are
/// outstanding. A view that was live stays live, and reads one more slot.
pub proof fn lemma_spawned_keeps_views(
    world: WorldView,
    components: Seq<Component>,
    column: int,
)
    requires
        world.wf(),
        0 <= column < world.columns.len(),
    ensures
        world.spawned(components).columns.len() >= world.columns.len(),
        world.spawned(components).columns[column].kind == world.columns[column].kind,
        world.spawned(components).columns[column].access == world.columns[column].access,
{
    lemma_grown_wf(world);
    lemma_with_components_keeps_views(world.grown(), world.entities as int, components, column);
}

/// Where the column of a type stands once a component is attached, and
/// which views of it are on record: a column that was there is where it
/// was, with the views it had; the column made for the component is the
/// last one, without views.
pub proof fn lemma_with_component_columns(
    world: WorldView,
    entity: int,
    component: Component,
    kind: ComponentKind,
)
    requires
        world.wf(),
        0 <= entity < world.entities,
    ensures
        world.with_component(entity, component).column_of(kind) == (if kind == component.kind()
            && world.column_of(kind) is None {
            Some(world.columns.len() as int)
        } else {
            world.column_of(kind)
        }),
        world.with_component(entity, component).access(kind) == world.access(kind),
{
    let after = world.with_component(entity, component);
    lemma_first_of_kind(world.columns, component.kind());
    lemma_first_of_kind(world.columns, kind);
    match world.column_of(component.kind()) {
        Some(column) => {
            lemma_first_of_kind_by_kinds(after.columns, world.columns, kind);
        },
        None => {
            let last = world.columns.len() as int;
            if kind == component.kind() {
                lemma_first_of_kind_is(after.columns, kind, last);
            } else {
                match world.column_of(kind) {
                    Some(column) => {
                        assert(after.columns[column] == world.columns[column]);
                        assert forall|before: int| 0 <= before < column implies (
                        #[trigger] after.columns[before]).kind != kind by {
                            assert(after.columns[before] == world.columns[before]);
                        }
                        lemma_first_of_kind_is(after.columns, kind, column);
                    },
                    None => {
                        assert forall|column: int| 0 <= column < after.columns.len() implies (
                        #[trigger] after.columns[column]).kind != kind by {
                            if column < last {
                                assert(after.columns[column] == world.columns[column]);
                            }
                        }
                        lemma_first_of_kind(after.columns, kind);
                    },
                }
            }
        },
    }
}

/// A world grows when an entity is created.
pub proof fn lemma_grown_grows(world: WorldView)
    requires
        world.wf(),
    ensures
        world.grown().grows_from(world),
{
    assert forall|kind: ComponentKind|
        (#[trigger] world.grown().column_of(kind)) == world.column_of(kind) by {
        lemma_first_of_kind_by_kinds(world.grown().columns, world.columns, kind);
    }
    assert forall|kind: ComponentKind| (#[trigger] world.grown().access(kind)) == world.access(
        kind,
    ) by {
        lemma_first_of_kind(world.columns, kind);
        assert(world.grown().column_of(kind) == world.column_of(kind));
    }
}

/// A world grows when a component is attached.
pub proof fn lemma_with_component_grows(world: WorldView, entity: int, component: Component)
    requires
        world.wf(),
        0 <= entity < world.entities,
    ensures
        world.with_component(entity, component).grows_from(world),
{
    let after = world.with_component(entity, component);
    assert forall|kind: ComponentKind| (#[trigger] world.column_of(kind)) is Some implies
        after.column_of(kind) == world.column_of(kind) by {
        lemma_with_component_columns(world, entity, component, kind);
    }
    assert forall|kind: ComponentKind| (#[trigger] after.access(kind)) == world.access(kind) by {
        lemma_with_component_columns(world, entity, component, kind);
    }
    lemma_with_component_keeps_live(world, entity, component);
}

/// What attaching a component leaves behind: a well-formed world with as
/// many entities, grown from the one before, in which the column of the
/// component's type exists, the slot written holds the component, and every
/// other slot holds what it held.
pub proof fn lemma_attached(world: WorldView, entity: int, component: Component)
    requires
        world.wf(),
        0 <= entity < world.entities,
    ensures
        world.with_component(entity, component).wf(),
        world.with_component(entity, component).entities == world.entities,
        world.with_component(entity, component).grows_from(world),
        world.with_component(entity, component).column_of(component.kind()) is Some,
        forall|kind: ComponentKind, other: int|
            0 <= other < world.entities ==> #[trigger] world.with_component(
                entity,
                component,
            ).slot(kind, other) == (if kind == component.kind() && other == entity {
                Some(component)
            } else {
                world.slot(kind, other)
            }),
{
    lemma_with_component_wf(world, entity, component);
    lemma_with_component_grows(world, entity, component);
    lemma_round_trip(world, entity, component);
    assert forall|kind: ComponentKind, other: int| 0 <= other < world.entities implies
        #[trigger] world.with_component(entity, component).slot(kind, other) == (if kind
        == component.kind() && other == entity {
        Some(component)
    } else {
        world.slot(kind, other)
    }) by {
        lemma_with_component_slots(world, entity, component, kind, other);
    }
}

/// Growth adds up: a world that has grown from one that has grown from a
/// third has grown from the third.
pub proof fn lemma_grows_from_chain(last: WorldView, middle: WorldView, first: WorldView)
    requires
        last.grows_from(middle),
        middle.grows_from(first),
    ensures
        last.grows_from(first),
{
    assert forall|kind: ComponentKind| (#[trigger] first.column_of(kind)) is Some implies
        last.column_of(kind) == first.column_of(kind) by {
        assert(middle.column_of(kind) == first.column_of(kind));
    }
    assert forall|kind: ComponentKind| (#[trigger] last.access(kind)) == first.access(kind) by {
        assert(middle.access(kind) == first.access(kind));
    }
    assert forall|column: int, kind: ComponentKind| #[trigger]
        first.lends_shared(column, kind) implies last.lends_shared(column, kind) by {
        assert(middle.lends_shared(column, kind));
    }
    assert forall|column: int, kind: ComponentKind| #[trigger]
        first.lends_exclusive(column, kind) implies last.lends_exclusive(column, kind) by {
        assert(middle.lends_exclusive(column, kind));
    }
}

/// Every type that a list of components holds has its column once the list
/// is attached.
pub proof fn lemma_with_components_columns(
    world: WorldView,
    entity: int,
    components: Seq<Component>,
    kind: ComponentKind,
)
    requires
        world.wf(),
        0 <= entity < world.entities,
        last_of_kind(components, kind) is Some,
    ensures
        world.with_components(entity, components).column_of(kind) is Some,
    decreases components.len(),
{
    if components.len() > 0 {
        let before = world.with_components(entity, components.drop_last());
        lemma_with_components_wf(world, entity, components.drop_last());
        lemma_with_component_columns(before, entity, components.last(), kind);
        if components.last().kind() != kind {
            lemma_with_components_columns(world, entity, components.drop_last(), kind);
        }
    }
}

/// A world grows when a list of components is attached.
pub proof fn lemma_with_components_grows(
    world: WorldView,
    entity: int,
    components: Seq<Component>,
)
    requires
        world.wf(),
        0 <= entity < world.entities,
    ensures
        world.with_components(entity, components).grows_from(world),
    decreases components.len(),
{
    if components.len() > 0 {
        let before = world.with_components(entity, components.drop_last());
        lemma_with_components_wf(world, entity, components.drop_last());
        lemma_with_components_grows(world, entity, components.drop_last());
        lemma_with_component_grows(before, entity, components.last());
        lemma_grows_from_chain(world.with_components(entity, components), before, world);
    }
}

/// Every type that the list of a spawn holds has its column after the
/// spawn.
pub proof fn lemma_spawned_columns(
    world: WorldView,
    components: Seq<Component>,
    kind: ComponentKind,
)
    requires
        world.wf(),
        last_of_kind(components, kind) is Some,
    ensures
        world.spawned(components).column_of(kind) is Some,
{
    lemma_grown_wf(world);
    lemma_with_components_columns(world.grown(), world.entities as int, components, kind);
}

/// A world grows through a spawn.
pub proof fn lemma_spawned_grows(world: WorldView, components: Seq<Component>)
    requires
        world.wf(),
    ensures
        world.spawned(components).grows_from(world),
{
    lemma_grown_wf(world);
    lemma_grown_grows(world);
    lemma_with_components_grows(world.grown(), world.entities as int, components);
    lemma_grows_from_chain(world.spawned(components), world.grown(), world);
}

/// Granting or taking back a view of a column changes the record of that
/// column and nothing else: the world holds what it held, and the views of
/// every other column are on record as they were.
pub proof fn lemma_with_access_frame(world: WorldView, column: int, access: Access)
    requires
        world.wf(),
        0 <= column < world.columns.len(),
    ensures
        world.with_access(column, access).same_data(world),
        world.with_access(column, access).same_access_but(world, world.columns[column].kind),
        world.with_access(column, access).access(world.columns[column].kind) == access,
{
    let after = world.with_access(column, access);
    assert forall|kind: ComponentKind| (#[trigger] after.column_of(kind)) == world.column_of(
        kind,
    ) by {
        lemma_first_of_kind_by_kinds(after.columns, world.columns, kind);
    }
    assert forall|kind: ComponentKind, entity: int|
        (#[trigger] after.slot(kind, entity)) == world.slot(kind, entity) by {
        lemma_first_of_kind(world.columns, kind);
        assert(after.column_of(kind) == world.column_of(kind));
    }
    assert forall|other: ComponentKind| other != world.columns[column].kind implies (
    #[trigger] after.access(other)) == world.access(other) by {
        lemma_first_of_kind(world.columns, other);
        assert(after.column_of(other) == world.column_of(other));
    }
    lemma_column_is_found(world, column, world.columns[column].kind);
    assert(after.column_of(world.columns[column].kind) == world.column_of(
        world.columns[column].kind,
    ));
}

/// A request for a view changes the record of the views of one column and
/// nothing else, whatever the answer: the world holds what it held, the
/// views of every other column are on record as they were, and the column
/// asked of has the view on record where it was granted.
pub proof fn lemma_request_frame(world: WorldView, kind: ComponentKind)
    requires
        world.wf(),
    ensures
        world.sharing(kind).same_data(world),
        world.sharing(kind).same_access_but(world, kind),
        world.sharing(kind).access(kind) == (match world.access(kind).shared() {
            Ok(next) if world.column_of(kind) is Some => next,
            _ => world.access(kind),
        }),
        world.locking(kind).same_data(world),
        world.locking(kind).same_access_but(world, kind),
        world.locking(kind).access(kind) == (match world.access(kind).locked() {
            Ok(next) if world.column_of(kind) is Some => next,
            _ => world.access(kind),
        }),
{
    lemma_first_of_kind(world.columns, kind);
    if let Some(column) = world.column_of(kind) {
        if let Ok(next) = world.columns[column].access.shared() {
            lemma_with_access_frame(world, column, next);
        }
        if let Ok(next) = world.columns[column].access.locked() {
            lemma_with_access_frame(world, column, next);
        }
    }
}

/// Views outlive new components: a view that is live stays live when a
/// component is attached.
pub proof fn lemma_with_component_keeps_live(world: WorldView, entity: int, component: Component)
    requires
        world.wf(),
        0 <= entity < world.entities,
    ensures
        world.with_component(entity, component).keeps_live(world),
{
    assert forall|column: int| 0 <= column < world.columns.len() implies {
        &&& world.with_component(entity, component).columns.len() >= world.columns.len()
        &&& (#[trigger] world.with_component(entity, component).columns[column]).kind
            == world.columns[column].kind
        &&& world.with_component(entity, component).columns[column].access
            == world.columns[column].access
    } by {
        lemma_with_component_keeps_views(world, entity, component, column);
    }
}

/// Views outlive requests: a view that is live stays live when another
/// view is asked for, whatever the answer.
pub proof fn lemma_requests_keep_live(world: WorldView, kind: ComponentKind)
    requires
        world.wf(),
    ensures
        world.sharing(kind).keeps_live(world),
        world.locking(kind).keeps_live(world),
{
    lemma_first_of_kind(world.columns, kind);
}

/// Asking for a shared view keeps a world well-formed, whatever the
/// answer, and changes no slot.
pub proof fn lemma_sharing_wf(world: WorldView, kind: ComponentKind)
    requires
        world.wf(),
    ensures
        world.sharing(kind).wf(),
        world.sharing(kind).entities == world.entities,
        forall|other: ComponentKind, entity: int|
            world.sharing(kind).slot(other, entity) == world.slot(other, entity),
{
    lemma_first_of_kind(world.columns, kind);
    if let Some(column) = world.column_of(kind) {
        assert(world.columns[column].wf());
        if let Ok(next) = world.columns[column].access.shared() {
            lemma_with_access_wf(world, column, next);
        }
    }
}

/// Asking for the exclusive view keeps a world well-formed, whatever the
/// answer, and changes no slot.
pub proof fn lemma_locking_wf(world: WorldView, kind: ComponentKind)
    requires
        world.wf(),
    ensures
        world.locking(kind).wf(),
        world.locking(kind).entities == world.entities,
        forall|other: ComponentKind, entity: int|
            world.locking(kind).slot(other, entity) == world.slot(other, entity),
{
    lemma_first_of_kind(world.columns, kind);
    if let Some(column) = world.column_of(kind) {
        assert(world.columns[column].wf());
        if let Ok(next) = world.columns[column].access.locked() {
            lemma_with_access_wf(world, column, next);
        }
    }
}

/// A component attached to an entity is found again: once it is attached,
/// the column of its type exists and the slot of that entity holds it. It
/// is what a shared view of that column reads at that entity, since asking
/// for the view changes no slot; and the request is never answered with
/// "no such column".
pub proof fn lemma_round_trip(world: WorldView, entity: int, component: Component)
    requires
        world.wf(),
        0 <= entity < world.entities,
    ensures
        world.with_component(entity, component).column_of(component.kind()) is Some,
        world.with_component(entity, component).slot(component.kind(), entity) == Some(
            component,
        ),
        world.with_component(entity, component).shared_grant(component.kind()) != Ok::<
            Option<int>,
            BorrowError,
        >(None),
        world.with_component(entity, component).sharing(component.kind()).slot(
            component.kind(),
            entity,
        ) == Some(component),
{
    let after = world.with_component(entity, component);
    lemma_first_of_kind(world.columns, component.kind());
    match world.column_of(component.kind()) {
        Some(column) => {
            lemma_first_of_kind_by_kinds(after.columns, world.columns, component.kind());
        },
        None => {
            lemma_first_of_kind_is(after.columns, component.kind(), world.columns.len() as int);
        },
    }
    lemma_with_component_wf(world, entity, component);
    lemma_sharing_wf(after, component.kind());
}

/// The round trip for a typed value: a value of type `C` attached to an
/// entity is what the slot of that entity holds in the column of `C`, the
/// column that a view of `C` is asked of; and the request for a shared view
/// of it is never answered with "no such column".
pub proof fn lemma_typed_round_trip<C: AnyComponent>(world: WorldView, entity: int, component: C)
    requires
        world.wf(),
        0 <= entity < world.entities,
    ensures
        world.with_component(entity, component.erased()).column_of(C::spec_kind()) is Some,
        world.with_component(entity, component.erased()).slot(C::spec_kind(), entity) == Some(
            component.erased(),
        ),
        world.with_component(entity, component.erased()).shared_grant(C::spec_kind()) != Ok::<
            Option<int>,
            BorrowError,
        >(None),
        world.with_component(entity, component.erased()).sharing(C::spec_kind()).slot(
            C::spec_kind(),
            entity,
        ) == Some(component.erased()),
{
    component.lemma_erased_kind();
    lemma_round_trip(world, entity, component.erased());
}

/// The last write wins: of two components of one type attached to the same
/// entity one after the other, the world keeps the second, and is the world
/// in which the first was never attached.
pub proof fn lemma_last_write_wins(
    world: WorldView,
    entity: int,
    first: Component,
    second: Component,
)
    requires
        world.wf(),
        0 <= entity < world.entities,
        first.kind() == second.kind(),
    ensures
        world.with_component(entity, first).with_component(entity, second)
            == world.with_component(entity, second),
        world.with_component(entity, first).with_component(entity, second).slot(
            second.kind(),
            entity,
        ) == Some(second),
{
    let once = world.with_component(entity, first);
    let twice = once.with_component(entity, second);
    let direct = world.with_component(entity, second);
    lemma_first_of_kind(world.columns, first.kind());
    match world.column_of(first.kind()) {
        Some(column) => {
            lemma_first_of_kind_by_kinds(once.columns, world.columns, first.kind());
            assert(twice.columns[column].slots =~= direct.columns[column].slots);
            assert(twice.columns =~= direct.columns);
        },
        None => {
            let last = world.columns.len() as int;
            lemma_first_of_kind_is(once.columns, first.kind(), last);
            assert(twice.columns[last].slots =~= direct.columns[last].slots);
            assert(twice.columns =~= direct.columns);
        },
    }
    lemma_round_trip(world, entity, second);
}

/// A column made late is backfilled: where no column of the component's
/// type was made, attaching the component makes one as the last column,
/// with one slot for each entity that exists, all of them empty but the one
/// just written; the columns that were there stay as they were.
pub proof fn lemma_new_column_backfilled(world: WorldView, entity: int, component: Component)
    requires
        world.wf(),
        0 <= entity < world.entities,
        world.column_of(component.kind()) is None,
    ensures
        ({
            let after = world.with_component(entity, component);
            &&& after.entities == world.entities
            &&& after.columns.len() == world.columns.len() + 1
            &&& after.column_of(component.kind()) == Some(world.columns.len() as int)
            &&& after.columns.last().kind == component.kind()
            &&& after.columns.last().access == Access::Free
            &&& after.columns.last().slots.len() == world.entities
            &&& forall|other: int|
                0 <= other < world.entities ==> #[trigger] after.columns.last().slots[other] == (
                if other == entity {
                    Some(component)
                } else {
                    None
                })
            &&& forall|column: int|
                0 <= column < world.columns.len() ==> #[trigger] after.columns[column]
                    == world.columns[column]
        }),
{
    let after = world.with_component(entity, component);
    lemma_first_of_kind(world.columns, component.kind());
    lemma_first_of_kind_is(after.columns, component.kind(), world.columns.len() as int);
}

/// Exclusive means alone: while any view of a column is outstanding, shared
/// or exclusive, a request for its exclusive view is refused, and the world
/// stays as it was.
pub proof fn lemma_exclusive_refused_while_viewed(world: WorldView, kind: ComponentKind)
    requires
        world.wf(),
        world.column_of(kind) matches Some(column) && world.columns[column].access != Access::Free,
    ensures
        world.exclusive_grant(kind) is Err,
        world.locking(kind) == world,
{
}

/// While the exclusive view of a column is outstanding, a request for a
/// shared view of it is refused, and the world stays as it was.
pub proof fn lemma_shared_refused_while_locked(world: WorldView, kind: ComponentKind)
    requires
        world.wf(),
        world.column_of(kind) matches Some(column) && world.columns[column].access
            == Access::Exclusive,
    ensures
        world.shared_grant(kind) == Err::<Option<int>, BorrowError>(
            BorrowError::AlreadyMutablyBorrowed,
        ),
        world.sharing(kind) == world,
{
}

/// Shared views share: while shared views of a column are outstanding, and
/// one more can be counted, a request for another is granted, and the
/// world has one more on record.
pub proof fn lemma_shared_granted_while_shared(world: WorldView, kind: ComponentKind)
    requires
        world.wf(),
        world.column_of(kind) matches Some(column) && (world.columns[column].access matches Access::Shared(
            count,
        ) && count < usize::MAX),
    ensures
        world.shared_grant(kind) == Ok::<Option<int>, BorrowError>(world.column_of(kind)),
        world.sharing(kind).columns[world.column_of(kind)->0].access == Access::Shared(
            (world.columns[world.column_of(kind)->0].access->Shared_0 + 1) as usize,
        ),
{
    lemma_first_of_kind(world.columns, kind);
}

/// Views of different columns never meet: whatever views of the column of
/// `held` are outstanding, a request for a view of the column of another
/// type `asked` gets the answer that it would get if none were.
pub proof fn lemma_views_independent(
    world: WorldView,
    held: ComponentKind,
    asked: ComponentKind,
    access: Access,
)
    requires
        world.wf(),
        held != asked,
        world.column_of(held) is Some,
    ensures
        world.with_access(world.column_of(held)->0, access).shared_grant(asked)
            == world.shared_grant(asked),
        world.with_access(world.column_of(held)->0, access).exclusive_grant(asked)
            == world.exclusive_grant(asked),
{
    let column = world.column_of(held)->0;
    let other = world.with_access(column, access);
    lemma_first_of_kind(world.columns, held);
    lemma_first_of_kind(world.columns, asked);
    lemma_first_of_kind_by_kinds(other.columns, world.columns, asked);
}

/// A shared view beside the exclusive view of another column: while the
/// exclusive view of the column of `held` is outstanding, a request for a
/// shared view of the column of another type `asked` is granted wherever
/// one more view of that column can be counted, and the exclusive view
/// stays on record.
pub proof fn lemma_shared_granted_beside_exclusive(
    world: WorldView,
    held: ComponentKind,
    asked: ComponentKind,
)
    requires
        world.wf(),
        held != asked,
        world.column_of(held) matches Some(locked) && world.columns[locked].access
            == Access::Exclusive,
        world.column_of(asked) matches Some(wanted) && world.columns[wanted].access.shared() is Ok,
    ensures
        world.shared_grant(asked) == Ok::<Option<int>, BorrowError>(world.column_of(asked)),
        world.sharing(asked).columns[world.column_of(held)->0].access == Access::Exclusive,
        world.sharing(asked).columns[world.column_of(asked)->0].slots
            == world.columns[world.column_of(asked)->0].slots,
{
    lemma_first_of_kind(world.columns, held);
    lemma_first_of_kind(world.columns, asked);
}

/// A view that is handed back makes room: once the only view of a column
/// is handed back, shared or exclusive, a request for its exclusive view is
/// granted.
pub proof fn lemma_exclusive_granted_after_release(world: WorldView, kind: ComponentKind)
    requires
        world.wf(),
        world.column_of(kind) matches Some(column) && (world.columns[column].access
            == Access::Exclusive || world.columns[column].access == Access::Shared(1)),
    ensures
        ({
            let column = world.column_of(kind)->0;
            let access = world.columns[column].access;
            let released = world.with_access(
                column,
                if access == Access::Exclusive {
                    access.unlocked()
                } else {
                    access.unshared()
                },
            );
            released.exclusive_grant(kind) == Ok::<Option<int>, BorrowError>(Some(column))
        }),
{
    let column = world.column_of(kind)->0;
    let access = world.columns[column].access;
    let released = world.with_access(
        column,
        if access == Access::Exclusive {
            access.unlocked()
        } else {
            access.unshared()
        },
    );
    lemma_first_of_kind(world.columns, kind);
    lemma_first_of_kind_by_kinds(released.columns, world.columns, kind);
}

/// Every step keeps a world well-formed.
pub proof fn lemma_step_wf(world: WorldView, step: Step)
    requires
        world.wf(),
    ensures
        world.step(step).wf(),
{
    match step {
        Step::NewEntity => {
            lemma_grown_wf(world);
        },
        Step::Spawn { components } => {
            lemma_spawned_wf(world, components);
        },
        Step::Attach { entity, component } => {
            if 0 <= entity < world.entities {
                lemma_with_component_wf(world, entity, component);
            }
        },
        Step::Share { kind } => {
            lemma_sharing_wf(world, kind);
        },
        Step::Lock { kind } => {
            lemma_locking_wf(world, kind);
        },
        Step::Unshare { column } => {
            if 0 <= column < world.columns.len() {
                assert(world.columns[column].wf());
                lemma_with_access_wf(world, column, world.columns[column].access.unshared());
            }
        },
        Step::Unlock { column } => {
            if 0 <= column < world.columns.len() {
                assert(world.columns[column].wf());
                lemma_with_access_wf(world, column, world.columns[column].access.unlocked());
            }
        },
    }
}

/// The invariant of the store: in every world that any steps lead to from
/// the empty world, every column has exactly as many slots as there are
/// entities.
pub proof fn lemma_every_world_wf(steps: Seq<Step>)
    ensures
        WorldView::reached(steps).wf(),
        forall|column: int|
            0 <= column < WorldView::reached(steps).columns.len() ==> (
            #[trigger] WorldView::reached(steps).columns[column]).slots.len()
                == WorldView::reached(steps).entities,
    decreases steps.len(),
{
    if steps.len() > 0 {
        lemma_every_world_wf(steps.drop_last());
        lemma_step_wf(WorldView::reached(steps.drop_last()), steps.last());
    }
}

} // verus!
