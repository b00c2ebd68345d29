//! Movement: velocities follow the keyboard, positions follow velocities.

use crate::access::Access;
use crate::column::ColumnView;
use crate::components::{AnyComponent, Component, ComponentKind, Position, Velocity};
use crate::constants::Controls;
use crate::laws::lemma_column_is_found;
use crate::model::WorldView;
use crate::world::{Ref, RefMut, World};
use device_query::Keycode;
use vstd::prelude::*;

verus! {

/// One row of the position pass: a position moves by the velocity beside
/// it; a slot stays as it is where it is empty or no velocity is beside it.
pub open spec fn advanced_slot(position: Option<Component>, velocity: Option<Component>) -> Option<
    Component,
> {
    match (position, velocity) {
        (Some(Component::Position(at)), Some(Component::Velocity(by))) => Some(
            Component::Position(at.moved((by.x, by.y))),
        ),
        _ => position,
    }
}

/// The column of positions after the position pass beside the column of
/// velocities.
pub open spec fn advanced_column(positions: ColumnView, velocities: ColumnView) -> ColumnView {
    ColumnView {
        slots: Seq::new(
            positions.slots.len(),
            |entity: int| advanced_slot(positions.slots[entity], velocities.slots[entity]),
        ),
        ..positions
    }
}

/// The world after the position pass: the column of positions is advanced
/// beside the column of velocities, and nothing else changes. Where one of
/// the two columns was never made, nothing changes at all.
pub open spec fn advanced(world: WorldView) -> WorldView {
    match (world.column_of(ComponentKind::Position), world.column_of(ComponentKind::Velocity)) {
        (Some(positions), Some(velocities)) => WorldView {
            columns: world.columns.update(
                positions,
                advanced_column(world.columns[positions], world.columns[velocities]),
            ),
            ..world
        },
        _ => world,
    }
}

/// Moves every entity that has a position and a velocity by its velocity,
/// row by row through both columns, then hands both views back.
pub fn advance_position_sys(
    world: &mut World,
    positions: RefMut<Position>,
    velocities: Ref<Velocity>,
)
    requires
        old(world).wf(),
        positions.is_live(old(world)),
        velocities.is_live(old(world)),
    ensures
        final(world).wf(),
        final(world)@ == advanced(old(world)@).with_access(
            positions.column(),
            Access::Free,
        ).with_access(
            velocities.column(),
            old(world)@.columns[velocities.column()].access.unshared(),
        ),
        final(world)@.entities == old(world)@.entities,
        forall|kind: ComponentKind|
            (#[trigger] final(world)@.column_of(kind)) == old(world)@.column_of(kind),
        forall|kind: ComponentKind, entity: int|
            0 <= entity < old(world)@.entities ==> #[trigger] final(world)@.slot(kind, entity) == (
            if kind == ComponentKind::Position {
                advanced_slot(
                    old(world)@.slot(ComponentKind::Position, entity),
                    old(world)@.slot(ComponentKind::Velocity, entity),
                )
            } else {
                old(world)@.slot(kind, entity)
            }),
        forall|kind: ComponentKind| #[trigger]
            final(world)@.access(kind) == (if kind == ComponentKind::Position {
                Access::Free
            } else if kind == ComponentKind::Velocity {
                old(world)@.access(kind).unshared()
            } else {
                old(world)@.access(kind)
            }),
{
    let ghost before = world@;
    let ghost from = positions.column();
    let ghost beside = velocities.column();
    proof {
        lemma_column_is_found(before, from, ComponentKind::Position);
        lemma_column_is_found(before, beside, ComponentKind::Velocity);
    }
    let len = positions.len(world);
    let mut entity: usize = 0;
    while entity < len
        invariant
            entity <= len,
            len == before.entities,
            before.wf(),
            before.column_of(ComponentKind::Position) == Some(from),
            before.column_of(ComponentKind::Velocity) == Some(beside),
            from == positions.column(),
            beside == velocities.column(),
            world.wf(),
            positions.is_live(world),
            velocities.is_live(world),
            world@.entities == before.entities,
            world@.columns.len() == before.columns.len(),
            forall|column: int|
                0 <= column < before.columns.len() && column != from ==> (
                #[trigger] world@.columns[column]) == before.columns[column],
            world@.columns[from].kind == before.columns[from].kind,
            world@.columns[from].access == before.columns[from].access,
            world@.columns[from].slots.len() == before.entities,
            forall|done: int|
                0 <= done < entity ==> (#[trigger] world@.columns[from].slots[done])
                    == advanced_slot(
                    before.columns[from].slots[done],
                    before.columns[beside].slots[done],
                ),
            forall|ahead: int|
                entity <= ahead < before.entities ==> (
                #[trigger] world@.columns[from].slots[ahead]) == before.columns[from].slots[ahead],
            forall|kind: ComponentKind|
                (#[trigger] world@.column_of(kind)) == before.column_of(kind),
            forall|kind: ComponentKind| (#[trigger] world@.access(kind)) == before.access(kind),
            forall|kind: ComponentKind, row: int|
                0 <= row < before.entities ==> #[trigger] world@.slot(kind, row) == (if kind
                    == ComponentKind::Position && row < entity {
                    advanced_slot(
                        before.slot(ComponentKind::Position, row),
                        before.slot(ComponentKind::Velocity, row),
                    )
                } else {
                    before.slot(kind, row)
                }),
        decreases len - entity,
    {
        let ghost current = world@;
        proof {
            lemma_column_is_found(current, from, ComponentKind::Position);
            lemma_column_is_found(current, beside, ComponentKind::Velocity);
            assert(current.columns[from].wf());
            assert(current.columns[beside].wf());
        }
        let step = match velocities.get(world, entity) {
            Some(velocity) => Some((velocity.x, velocity.y)),
            None => None,
        };
        let at = match positions.get(world, entity) {
            Some(position) => Some(*position),
            None => None,
        };
        match (at, step) {
            (Some(mut position), Some(delta)) => {
                position.add(delta);
                positions.set(world, entity, position);
            },
            _ => {},
        }
        entity += 1;
    }
    proof {
        assert(world@.columns[from].slots =~= advanced_column(
            before.columns[from],
            before.columns[beside],
        ).slots);
        assert(world@.columns =~= advanced(before).columns);
    }
    positions.release(world);
    velocities.release(world);
}

/// One row of the velocity pass: a velocity becomes `to`, and an empty slot
/// stays empty.
pub open spec fn steered_slot(velocity: Option<Component>, to: Velocity) -> Option<Component> {
    match velocity {
        Some(_) => Some(Component::Velocity(to)),
        None => None,
    }
}

/// The world in which every entity that has a velocity has the velocity
/// `to`; nothing else differs.
pub open spec fn steered_to(world: WorldView, to: Velocity) -> WorldView {
    match world.column_of(ComponentKind::Velocity) {
        Some(velocities) => WorldView {
            columns: world.columns.update(
                velocities,
                ColumnView {
                    slots: Seq::new(
                        world.columns[velocities].slots.len(),
                        |entity: int| steered_slot(world.columns[velocities].slots[entity], to),
                    ),
                    ..world.columns[velocities]
                },
            ),
            ..world
        },
        None => world,
    }
}

/// The world after the velocity pass: where a key was pressed, every
/// velocity is the step that the key asks for, and nothing else changes.
pub open spec fn steered(world: WorldView, controls: Controls, input: Option<Keycode>) -> WorldView {
    match input {
        Some(key) => steered_to(
            world,
            Velocity { x: controls.step(key).0, y: controls.step(key).1 },
        ),
        None => world,
    }
}

/// Sets the velocity of every entity that has one to `to`, then hands the
/// view back.
pub fn set_velocity_sys(world: &mut World, velocities: RefMut<Velocity>, to: Velocity)
    requires
        old(world).wf(),
        velocities.is_live(old(world)),
    ensures
        final(world).wf(),
        final(world)@ == steered_to(old(world)@, to).with_access(
            velocities.column(),
            Access::Free,
        ),
        final(world)@.entities == old(world)@.entities,
        forall|kind: ComponentKind|
            (#[trigger] final(world)@.column_of(kind)) == old(world)@.column_of(kind),
        forall|kind: ComponentKind, entity: int|
            0 <= entity < old(world)@.entities ==> #[trigger] final(world)@.slot(kind, entity) == (
            if kind == ComponentKind::Velocity {
                steered_slot(old(world)@.slot(kind, entity), to)
            } else {
                old(world)@.slot(kind, entity)
            }),
        final(world)@.same_access_but(old(world)@, ComponentKind::Velocity),
        final(world)@.access(ComponentKind::Velocity) == Access::Free,
{
    let ghost before = world@;
    let ghost from = velocities.column();
    proof {
        lemma_column_is_found(before, from, ComponentKind::Velocity);
    }
    let len = velocities.len(world);
    let mut entity: usize = 0;
    while entity < len
        invariant
            entity <= len,
            len == before.entities,
            before.wf(),
            before.column_of(ComponentKind::Velocity) == Some(from),
            from == velocities.column(),
            world.wf(),
            velocities.is_live(world),
            world@.entities == before.entities,
            world@.columns.len() == before.columns.len(),
            forall|column: int|
                0 <= column < before.columns.len() && column != from ==> (
                #[trigger] world@.columns[column]) == before.columns[column],
            world@.columns[from].kind == before.columns[from].kind,
            world@.columns[from].access == before.columns[from].access,
            world@.columns[from].slots.len() == before.entities,
            forall|done: int|
                0 <= done < entity ==> (#[trigger] world@.columns[from].slots[done])
                    == steered_slot(before.columns[from].slots[done], to),
            forall|ahead: int|
                entity <= ahead < before.entities ==> (
                #[trigger] world@.columns[from].slots[ahead]) == before.columns[from].slots[ahead],
            forall|kind: ComponentKind|
                (#[trigger] world@.column_of(kind)) == before.column_of(kind),
            forall|kind: ComponentKind| (#[trigger] world@.access(kind)) == before.access(kind),
            forall|kind: ComponentKind, row: int|
                0 <= row < before.entities ==> #[trigger] world@.slot(kind, row) == (if kind
                    == ComponentKind::Velocity && row < entity {
                    steered_slot(before.slot(kind, row), to)
                } else {
                    before.slot(kind, row)
                }),
        decreases len - entity,
    {
        proof {
            lemma_column_is_found(world@, from, ComponentKind::Velocity);
        }
        if velocities.get(world, entity).is_some() {
            velocities.set(world, entity, to);
        }
        entity += 1;
    }
    proof {
        assert(world@.columns[from].slots =~= steered_to(before, to).columns[from].slots);
        assert(world@.columns =~= steered_to(before, to).columns);
    }
    velocities.release(world);
}

/// Sets the velocity of every entity that has one to the step that the key
/// pressed asks for, then hands the view back. Without a key no velocity
/// changes.
pub fn advance_velocity_sys(
    world: &mut World,
    velocities: RefMut<Velocity>,
    controls: &Controls,
    input: &Option<Keycode>,
)
    requires
        old(world).wf(),
        velocities.is_live(old(world)),
    ensures
        final(world).wf(),
        final(world)@ == steered(old(world)@, *controls, *input).with_access(
            velocities.column(),
            Access::Free,
        ),
        final(world)@.entities == old(world)@.entities,
        forall|kind: ComponentKind|
            (#[trigger] final(world)@.column_of(kind)) == old(world)@.column_of(kind),
        forall|kind: ComponentKind, entity: int|
            0 <= entity < old(world)@.entities ==> #[trigger] final(world)@.slot(kind, entity) == (
            match *input {
                Some(key) if kind == ComponentKind::Velocity => steered_slot(
                    old(world)@.slot(kind, entity),
                    Velocity { x: controls.step(key).0, y: controls.step(key).1 },
                ),
                _ => old(world)@.slot(kind, entity),
            }),
        final(world)@.same_access_but(old(world)@, ComponentKind::Velocity),
        final(world)@.access(ComponentKind::Velocity) == Access::Free,
{
    match input {
        Some(key) => {
            let delta = controls.step(*key);
            set_velocity_sys(world, velocities, Velocity::new(delta.0, delta.1));
        },
        None => {
            velocities.release(world);
        },
    }
}

} // verus!
