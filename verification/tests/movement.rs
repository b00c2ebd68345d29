use device_query::Keycode;
use ecs_world::components::{AnyComponent, Health, Position, Velocity};
use ecs_world::constants::{is_held, Controls, PLAYER_SPEED};
use ecs_world::systems::movement::{advance_position_sys, advance_velocity_sys, set_velocity_sys};
use ecs_world::utils::read_input;
use ecs_world::world::World;

fn wasd() -> Controls {
    Controls::new(Keycode::W, Keycode::S, Keycode::D, Keycode::A)
}

fn positions_of(world: &mut World) -> Vec<Option<Position>> {
    let view = world.borrow_compvec::<Position>().unwrap();
    let mut out = Vec::new();
    for entity in 0..view.len(world) {
        out.push(view.get(world, entity).copied());
    }
    view.release(world);
    out
}

fn velocities_of(world: &mut World) -> Vec<Option<Velocity>> {
    let view = world.borrow_compvec::<Velocity>().unwrap();
    let mut out = Vec::new();
    for entity in 0..view.len(world) {
        out.push(view.get(world, entity).copied());
    }
    view.release(world);
    out
}

#[test]
fn position_pass_moves_only_entities_with_a_velocity() {
    let mut world = World::new();
    world.spawn(vec![Position::new(10, 10).into_box(), Velocity::new(1, 1).into_box()]);
    world.spawn(vec![Position::new(0, 0).into_box()]);

    let positions = world.borrow_compvec_mut::<Position>().unwrap();
    let velocities = world.borrow_compvec::<Velocity>().unwrap();
    advance_position_sys(&mut world, positions, velocities);

    assert_eq!(
        positions_of(&mut world),
        vec![Some(Position { x: 11, y: 11 }), Some(Position { x: 0, y: 0 })]
    );
    assert_eq!(velocities_of(&mut world), vec![Some(Velocity { x: 1, y: 1 }), None]);
}

#[test]
fn position_pass_skips_velocities_without_a_position() {
    let mut world = World::new();
    world.spawn(vec![Velocity::new(3, 3).into_box()]);
    world.spawn(vec![Position::new(5, 5).into_box(), Velocity::new(-2, 4).into_box()]);
    world.spawn(vec![Health(1).into_box()]);

    let positions = world.borrow_compvec_mut::<Position>().unwrap();
    let velocities = world.borrow_compvec::<Velocity>().unwrap();
    advance_position_sys(&mut world, positions, velocities);

    assert_eq!(positions_of(&mut world), vec![None, Some(Position { x: 3, y: 9 }), None]);
}

#[test]
fn position_pass_stops_at_the_border() {
    let mut world = World::new();
    world.spawn(vec![Position::new(39, 0).into_box(), Velocity::new(1, -1).into_box()]);

    let positions = world.borrow_compvec_mut::<Position>().unwrap();
    let velocities = world.borrow_compvec::<Velocity>().unwrap();
    advance_position_sys(&mut world, positions, velocities);

    assert_eq!(positions_of(&mut world), vec![Some(Position { x: 39, y: 0 })]);
}

#[test]
fn position_pass_hands_its_views_back() {
    let mut world = World::new();
    world.spawn(vec![Position::new(1, 1).into_box(), Velocity::new(1, 1).into_box()]);

    let kept = world.borrow_compvec::<Velocity>().unwrap();
    let positions = world.borrow_compvec_mut::<Position>().unwrap();
    let velocities = world.borrow_compvec::<Velocity>().unwrap();
    advance_position_sys(&mut world, positions, velocities);

    assert!(kept.is_live(&world));
    assert!(matches!(world.try_borrow_compvec_mut::<Position>(), Ok(Some(_))));
    kept.release(&mut world);
    assert!(matches!(world.try_borrow_compvec_mut::<Velocity>(), Ok(Some(_))));
}

#[test]
fn velocity_pass_follows_the_key() {
    for (key, expected) in [
        (Keycode::W, Velocity { x: 0, y: -PLAYER_SPEED }),
        (Keycode::S, Velocity { x: 0, y: PLAYER_SPEED }),
        (Keycode::D, Velocity { x: PLAYER_SPEED, y: 0 }),
        (Keycode::A, Velocity { x: -PLAYER_SPEED, y: 0 }),
        (Keycode::Q, Velocity { x: 0, y: 0 }),
    ] {
        let mut world = World::new();
        world.spawn(vec![Velocity::new(5, 5).into_box()]);
        world.spawn(vec![Health(1).into_box()]);
        world.spawn(vec![Velocity::new(0, 0).into_box()]);

        let velocities = world.borrow_compvec_mut::<Velocity>().unwrap();
        advance_velocity_sys(&mut world, velocities, &wasd(), &Some(key));
        assert_eq!(velocities_of(&mut world), vec![Some(expected), None, Some(expected)]);
    }
}

#[test]
fn velocity_pass_without_a_key_changes_nothing() {
    let mut world = World::new();
    world.spawn(vec![Velocity::new(5, -5).into_box()]);

    let velocities = world.borrow_compvec_mut::<Velocity>().unwrap();
    advance_velocity_sys(&mut world, velocities, &wasd(), &None);
    assert_eq!(velocities_of(&mut world), vec![Some(Velocity { x: 5, y: -5 })]);
    assert!(matches!(world.try_borrow_compvec_mut::<Velocity>(), Ok(Some(_))));
}

#[test]
fn two_passes_move_the_player_one_cell() {
    let mut world = World::new();
    let player = world.spawn(vec![
        Health(100).into_box(),
        Position::new(10, 10).into_box(),
        Velocity::new(0, 0).into_box(),
    ]);
    for _ in 0..3 {
        let velocities = world.borrow_compvec_mut::<Velocity>().unwrap();
        advance_velocity_sys(&mut world, velocities, &wasd(), &Some(Keycode::D));
        let positions = world.borrow_compvec_mut::<Position>().unwrap();
        let velocities = world.borrow_compvec::<Velocity>().unwrap();
        advance_position_sys(&mut world, positions, velocities);
    }
    assert_eq!(
        world.debug_entity(&player),
        "Entity(0): [Health(100), Position { x: 13, y: 10 }, Velocity { x: 1, y: 0 }]"
    );
}

#[test]
fn step_of_each_control_key() {
    let controls = wasd();
    assert_eq!(controls.step(Keycode::W), (0, -1));
    assert_eq!(controls.step(Keycode::S), (0, 1));
    assert_eq!(controls.step(Keycode::D), (1, 0));
    assert_eq!(controls.step(Keycode::A), (-1, 0));
    assert_eq!(controls.step(Keycode::Space), (0, 0));
    assert_eq!(controls.step(Keycode::Up), (0, 0));
}

#[test]
fn first_direction_wins_where_one_key_has_two() {
    let controls = Controls::new(Keycode::X, Keycode::X, Keycode::Y, Keycode::X);
    assert_eq!(controls.step(Keycode::X), (0, -1));
    assert_eq!(controls.step(Keycode::Y), (1, 0));
}

#[test]
fn held_keys_add_up() {
    let controls = wasd();
    assert_eq!(controls.held_step(&vec![]), (0, 0));
    assert_eq!(controls.held_step(&vec![Keycode::D]), (1, 0));
    assert_eq!(controls.held_step(&vec![Keycode::W, Keycode::A]), (-1, -1));
    assert_eq!(controls.held_step(&vec![Keycode::S, Keycode::D, Keycode::Space]), (1, 1));
    assert_eq!(controls.held_step(&vec![Keycode::A, Keycode::D]), (0, 0));
    assert_eq!(controls.held_step(&vec![Keycode::W, Keycode::S, Keycode::D]), (1, 0));
    assert_eq!(controls.held_step(&vec![Keycode::D, Keycode::D]), (1, 0));
}

#[test]
fn held_key_is_found_among_others() {
    let keys = vec![Keycode::LShift, Keycode::A, Keycode::Key1];
    assert!(is_held(&keys, Keycode::A));
    assert!(is_held(&keys, Keycode::Key1));
    assert!(is_held(&keys, Keycode::LShift));
    assert!(!is_held(&keys, Keycode::B));
    assert!(!is_held(&vec![], Keycode::A));
}

#[test]
fn input_is_the_first_key_held() {
    assert_eq!(read_input(&vec![]), None);
    assert_eq!(read_input(&vec![Keycode::Q]), Some(Keycode::Q));
    assert_eq!(read_input(&vec![Keycode::D, Keycode::W]), Some(Keycode::D));
}

#[test]
fn every_velocity_is_set_and_nothing_else() {
    let mut world = World::new();
    world.spawn(vec![Velocity::new(5, 5).into_box(), Position::new(1, 1).into_box()]);
    world.spawn(vec![Position::new(2, 2).into_box()]);
    world.spawn(vec![Velocity::new(0, 0).into_box()]);

    let velocities = world.borrow_compvec_mut::<Velocity>().unwrap();
    set_velocity_sys(&mut world, velocities, Velocity::new(-2, 3));
    let to = Velocity { x: -2, y: 3 };
    assert_eq!(velocities_of(&mut world), vec![Some(to), None, Some(to)]);
    assert_eq!(
        positions_of(&mut world),
        vec![Some(Position { x: 1, y: 1 }), Some(Position { x: 2, y: 2 }), None]
    );
    assert!(matches!(world.try_borrow_compvec_mut::<Velocity>(), Ok(Some(_))));
}
