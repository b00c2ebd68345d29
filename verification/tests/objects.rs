use device_query::Keycode;
use ecs_world::components::Position;
use ecs_world::constants::{Controls, PLAYER_SPEED, TARGET_FPS, WINDOW_HEIGHT, WINDOW_WIDTH};
use ecs_world::entity::{Enemy as EntityEnemy, Entity, Player as EntityPlayer};
use ecs_world::object::{Enemy, Movable, Object, Player};

fn wasd() -> Controls {
    Controls::new(Keycode::W, Keycode::S, Keycode::D, Keycode::A)
}

#[test]
fn constants_of_the_game() {
    assert_eq!(TARGET_FPS, 60);
    assert_eq!(WINDOW_WIDTH, 40);
    assert_eq!(WINDOW_HEIGHT, 20);
    assert_eq!(PLAYER_SPEED, 1);
}

#[test]
fn object_keeps_sprite_and_cell() {
    let object = Object::new(String::from("V"), (50, 50));
    assert_eq!(object.sprite, "V");
    assert_eq!(object.pos, (50, 50));
    let copy = object.clone();
    assert_eq!(copy.sprite, "V");
    assert_eq!(copy.pos, (50, 50));
}

#[test]
fn player_object_moves_inside_the_field() {
    let mut player = Player::new(String::from("V"), (5, 5), wasd());
    player.move_pos((2, -3));
    assert_eq!(player.object.pos, (7, 2));
    player.move_pos((-100, 100));
    assert_eq!(player.object.pos, (0, 19));
    player.move_pos((100, -100));
    assert_eq!(player.object.pos, (39, 0));
    assert_eq!(player.object.sprite, "V");
}

#[test]
fn player_object_follows_one_key() {
    let mut player = Player::new(String::from("V"), (5, 5), wasd());
    player.apply_input(Keycode::W);
    assert_eq!(player.object.pos, (5, 4));
    player.apply_input(Keycode::D);
    assert_eq!(player.object.pos, (6, 4));
    player.apply_input(Keycode::S);
    assert_eq!(player.object.pos, (6, 5));
    player.apply_input(Keycode::A);
    assert_eq!(player.object.pos, (5, 5));
    player.apply_input(Keycode::Enter);
    assert_eq!(player.object.pos, (5, 5));
}

#[test]
fn player_object_follows_held_keys() {
    let mut player = Player::new(String::from("V"), (0, 0), wasd());
    player.test_update(&vec![Keycode::S, Keycode::D]);
    assert_eq!(player.object.pos, (1, 1));
    player.test_update(&vec![Keycode::W, Keycode::A, Keycode::A]);
    assert_eq!(player.object.pos, (0, 0));
    player.test_update(&vec![Keycode::W]);
    assert_eq!(player.object.pos, (0, 0));
    player.test_update(&vec![]);
    assert_eq!(player.object.pos, (0, 0));
}

#[test]
fn enemy_object_moves_inside_the_field() {
    let mut enemy = Enemy::new(String::from("X"), (39, 19));
    enemy.move_pos((1, 1));
    assert_eq!(enemy.object.pos, (39, 19));
    enemy.move_pos((-1, -1));
    assert_eq!(enemy.object.pos, (38, 18));
    assert_eq!(enemy.object.sprite, "X");
}

#[test]
fn entity_gives_sprite_and_cell() {
    let player = Entity::Player(EntityPlayer::new(String::from("V"), 3, 4, wasd()));
    let enemy = Entity::Enemy(EntityEnemy::new(String::from("X"), 7, 8));
    assert_eq!(player.get_sprite(), "V");
    assert_eq!(player.get_pos(), (3, 4));
    assert_eq!(enemy.get_sprite(), "X");
    assert_eq!(enemy.get_pos(), (7, 8));
}

#[test]
fn player_entity_follows_the_keyboard() {
    let mut player = EntityPlayer::new(String::from("V"), 0, 0, wasd());
    player.apply_input(Keycode::S);
    assert_eq!(player.pos, Position { x: 0, y: 1 });
    player.apply_input(Keycode::W);
    player.apply_input(Keycode::W);
    assert_eq!(player.pos, Position { x: 0, y: 0 });
    player.update(&vec![Keycode::D, Keycode::S]);
    assert_eq!(player.pos, Position { x: 1, y: 1 });
    player.update(&vec![Keycode::D, Keycode::A]);
    assert_eq!(player.pos, Position { x: 1, y: 1 });
    let copy = player.clone();
    assert_eq!(copy.pos, player.pos);
    assert_eq!(copy.sprite, player.sprite);
}

#[test]
fn enemy_is_taken_off_the_far_borders() {
    let mut enemy = EntityEnemy::new(String::from("X"), 39, 5);
    assert!(enemy.recentre());
    assert_eq!(enemy.pos, Position { x: 19, y: 5 });

    let mut enemy = EntityEnemy::new(String::from("X"), 5, 19);
    assert!(enemy.recentre());
    assert_eq!(enemy.pos, Position { x: 5, y: 9 });

    let mut enemy = EntityEnemy::new(String::from("X"), 40, 25);
    assert!(enemy.recentre());
    assert_eq!(enemy.pos, Position { x: 19, y: 9 });

    let mut enemy = EntityEnemy::new(String::from("X"), 38, 18);
    assert!(!enemy.recentre());
    assert_eq!(enemy.pos, Position { x: 38, y: 18 });

    let mut enemy = EntityEnemy::new(String::from("X"), 0, 0);
    assert!(!enemy.recentre());
    assert_eq!(enemy.pos, Position { x: 0, y: 0 });
}
