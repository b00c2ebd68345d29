use device_query::Keycode;
use ecs_world::constants::Controls;
use ecs_world::entity::{Enemy, Entity, Player};
use ecs_world::screen::Screen;

fn wasd() -> Controls {
    Controls::new(Keycode::W, Keycode::S, Keycode::D, Keycode::A)
}

#[test]
fn blank_screen_is_framed() {
    let screen = Screen::new(3, 2);
    assert_eq!(screen.render(), vec!["▁▁▁▁", "▏   ▏", "▏   ▏", "▔▔▔▔"]);
}

#[test]
fn screen_without_rows_has_only_borders() {
    let screen = Screen::new(2, 0);
    assert_eq!(screen.render(), vec!["▁▁▁", "▔▔▔"]);
}

#[test]
fn screen_without_columns_has_empty_rows() {
    let screen = Screen::new(0, 2);
    assert_eq!(screen.render(), vec!["▁", "▏▏", "▏▏", "▔"]);
}

#[test]
fn entities_are_drawn_on_their_cells() {
    let mut screen = Screen::new(4, 3);
    screen.update_grid(vec![
        Entity::Player(Player::new(String::from("V"), 0, 0, wasd())),
        Entity::Enemy(Enemy::new(String::from("X"), 3, 2)),
        Entity::Enemy(Enemy::new(String::from("Y"), 1, 1)),
    ]);
    assert_eq!(screen.render(), vec!["▁▁▁▁▁", "▏V   ▏", "▏ Y  ▏", "▏   X▏", "▔▔▔▔▔"]);
}

#[test]
fn later_entity_shows_on_a_shared_cell() {
    let mut screen = Screen::new(2, 1);
    screen.update_grid(vec![
        Entity::Enemy(Enemy::new(String::from("a"), 1, 0)),
        Entity::Enemy(Enemy::new(String::from("b"), 1, 0)),
    ]);
    assert_eq!(screen.render(), vec!["▁▁▁", "▏ b▏", "▔▔▔"]);
}

#[test]
fn update_starts_from_a_blank_grid() {
    let mut screen = Screen::new(2, 2);
    screen.update_grid(vec![Entity::Enemy(Enemy::new(String::from("a"), 0, 0))]);
    screen.update_grid(vec![Entity::Enemy(Enemy::new(String::from("b"), 1, 1))]);
    assert_eq!(screen.render(), vec!["▁▁▁", "▏  ▏", "▏ b▏", "▔▔▔"]);
    screen.reset_grid();
    assert_eq!(screen.render(), vec!["▁▁▁", "▏  ▏", "▏  ▏", "▔▔▔"]);
}

#[test]
fn sprite_of_several_characters_fills_one_cell() {
    let mut screen = Screen::new(2, 1);
    screen.update_grid(vec![Entity::Enemy(Enemy::new(String::from("<>"), 0, 0))]);
    assert_eq!(screen.render(), vec!["▁▁▁", "▏<> ▏", "▔▔▔"]);
}

#[test]
fn screen_tells_its_size() {
    let screen = Screen::new(40, 20);
    assert_eq!(screen.width(), 40);
    assert_eq!(screen.height(), 20);
    let mut screen = Screen::new(0, 7);
    screen.reset_grid();
    assert_eq!(screen.width(), 0);
    assert_eq!(screen.height(), 7);
}

#[test]
fn screen_tells_whether_every_entity_is_on_it() {
    let screen = Screen::new(4, 3);
    assert!(screen.holds_all(&vec![]));
    assert!(screen.holds_all(&vec![
        Entity::Player(Player::new(String::from("V"), 0, 0, wasd())),
        Entity::Enemy(Enemy::new(String::from("X"), 3, 2)),
    ]));
    assert!(!screen.holds_all(&vec![Entity::Enemy(Enemy::new(String::from("X"), 4, 2))]));
    assert!(!screen.holds_all(&vec![Entity::Enemy(Enemy::new(String::from("X"), 3, 3))]));
    assert!(!screen.holds_all(&vec![Entity::Enemy(Enemy::new(String::from("X"), -1, 0))]));
    assert!(!screen.holds_all(&vec![
        Entity::Enemy(Enemy::new(String::from("X"), 1, 1)),
        Entity::Enemy(Enemy::new(String::from("X"), 0, -1)),
    ]));
}
