use ecs_world::column::ComponentVec;
use ecs_world::access::{Access, BorrowError};
use ecs_world::components::{
    AnyComponent, Component, ComponentKind, EnemyTag, Health, PlayerTag, Position, Sprite, Velocity,
};

#[test]
fn position_moves_by_delta() {
    let mut position = Position::new(10, 10);
    position.add((1, -2));
    assert_eq!(position, Position { x: 11, y: 8 });
}

#[test]
fn position_stops_at_the_borders() {
    let mut position = Position::new(0, 0);
    position.add((-1, -1));
    assert_eq!(position, Position { x: 0, y: 0 });

    let mut position = Position::new(39, 19);
    position.add((1, 1));
    assert_eq!(position, Position { x: 39, y: 19 });

    let mut position = Position::new(38, 18);
    position.add((5, 5));
    assert_eq!(position, Position { x: 39, y: 19 });

    let mut position = Position::new(100, -100);
    position.add((0, 0));
    assert_eq!(position, Position { x: 39, y: 0 });
}

#[test]
fn position_add_does_not_overflow() {
    let mut position = Position::new(i32::MAX, i32::MIN);
    position.add((i32::MAX, i32::MIN));
    assert_eq!(position, Position { x: 39, y: 0 });
}

#[test]
fn velocity_adds_and_rests() {
    let mut velocity = Velocity::new(1, -1);
    velocity.add((2, 3));
    assert_eq!(velocity, Velocity { x: 3, y: 2 });
    velocity.zero();
    assert_eq!(velocity, Velocity { x: 0, y: 0 });
}

#[test]
fn sprite_gives_its_glyph_back() {
    let sprite = Sprite::new(String::from("@"));
    assert_eq!(sprite.to_string(), "@");
    assert_eq!(sprite.as_str(), "@");
    assert_eq!(sprite.clone(), sprite);
}

#[test]
fn each_type_has_its_own_token() {
    assert_eq!(Health::kind(), ComponentKind::Health);
    assert_eq!(Position::kind(), ComponentKind::Position);
    assert_eq!(Velocity::kind(), ComponentKind::Velocity);
    assert_eq!(Sprite::kind(), ComponentKind::Sprite);
    assert_eq!(PlayerTag::kind(), ComponentKind::PlayerTag);
    assert_eq!(EnemyTag::kind(), ComponentKind::EnemyTag);
}

#[test]
fn boxing_keeps_value_and_token() {
    assert_eq!(Health(3).into_box(), Component::Health(Health(3)));
    assert_eq!(Health(3).into_box().kind(), ComponentKind::Health);
    assert_eq!(Position::new(1, 2).into_box(), Component::Position(Position { x: 1, y: 2 }));
    assert_eq!(Velocity::new(1, 2).into_box().kind(), ComponentKind::Velocity);
    assert_eq!(Sprite::new(String::from("V")).into_box().kind(), ComponentKind::Sprite);
    assert_eq!(PlayerTag.into_box(), Component::PlayerTag(PlayerTag));
    assert_eq!(EnemyTag.into_box().kind(), ComponentKind::EnemyTag);
}

#[test]
fn downcast_recovers_only_its_own_type() {
    let boxed = Health(3).into_box();
    assert_eq!(Health::downcast(&boxed), Some(&Health(3)));
    assert_eq!(Position::downcast(&boxed), None);
    assert_eq!(Velocity::downcast(&boxed), None);
    assert_eq!(Sprite::downcast(&boxed), None);
    assert_eq!(PlayerTag::downcast(&boxed), None);
    assert_eq!(EnemyTag::downcast(&boxed), None);

    let boxed = Velocity::new(4, 5).into_box();
    assert_eq!(Velocity::downcast(&boxed), Some(&Velocity { x: 4, y: 5 }));
    assert_eq!(Position::downcast(&boxed), None);
}

#[test]
fn clone_of_a_boxed_component_is_equal() {
    let boxed = Sprite::new(String::from("abc")).into_box();
    assert_eq!(boxed.clone(), boxed);
    let boxed = Position::new(-1, 7).into_box();
    assert_eq!(boxed.clone(), boxed);
}

#[test]
fn new_column_is_backfilled() {
    let column = ComponentVec::new(ComponentKind::Health, 3);
    assert_eq!(column.kind(), ComponentKind::Health);
    assert_eq!(column.len(), 3);
    assert_eq!(column.access(), Access::Free);
    for entity in 0..3 {
        assert_eq!(column.get(entity), None);
        assert_eq!(column.fmt_entity(entity), "");
    }
}

#[test]
fn column_grows_by_empty_slots() {
    let mut column = ComponentVec::new(ComponentKind::Position, 0);
    assert_eq!(column.len(), 0);
    column.push_none();
    column.push_none();
    assert_eq!(column.len(), 2);
    assert_eq!(column.get(1), None);
    column.set(1, Position::new(3, 4).into_box());
    assert_eq!(column.get(0), None);
    assert_eq!(column.get(1), Some(&Component::Position(Position { x: 3, y: 4 })));
    column.push_none();
    assert_eq!(column.len(), 3);
    assert_eq!(column.get(1), Some(&Component::Position(Position { x: 3, y: 4 })));
    assert_eq!(column.get(2), None);
}

#[test]
fn column_formats_a_slot() {
    let mut column = ComponentVec::new(ComponentKind::Health, 2);
    column.set(0, Health(100).into_box());
    assert_eq!(column.fmt_entity(0), "Health(100)");
    assert_eq!(column.fmt_entity(1), "");
    assert_eq!(column.fmt_entity(2), "");
    assert_eq!(column.fmt_entity(usize::MAX), "");
}

#[test]
fn column_arbitrates_its_views() {
    let mut column = ComponentVec::new(ComponentKind::Health, 1);
    assert_eq!(column.share(), Ok(()));
    assert_eq!(column.share(), Ok(()));
    assert_eq!(column.access(), Access::Shared(2));
    assert_eq!(column.lock(), Err(BorrowError::AlreadyBorrowed));
    column.unshare();
    column.unshare();
    assert_eq!(column.access(), Access::Free);
    assert_eq!(column.lock(), Ok(()));
    assert_eq!(column.share(), Err(BorrowError::AlreadyMutablyBorrowed));
    column.unlock();
    assert_eq!(column.access(), Access::Free);
}
