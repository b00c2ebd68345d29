use ecs_world::components::{AnyComponent, EnemyTag, Health, PlayerTag, Position, Sprite, Velocity};
use ecs_world::column::ComponentVec;
use ecs_world::components::ComponentKind;
use ecs_world::render::{push_decimal, push_item, push_signed_decimal, sprite_text};

#[test]
fn decimal_of_small_and_large_numbers() {
    for (number, text) in [
        (0u64, "0"),
        (7, "7"),
        (10, "10"),
        (99, "99"),
        (100, "100"),
        (1234567890, "1234567890"),
        (u64::MAX, "18446744073709551615"),
    ] {
        let mut out = String::new();
        push_decimal(&mut out, number);
        assert_eq!(out, text);
        assert_eq!(out, number.to_string());
    }
}

#[test]
fn decimal_is_appended_to_what_is_there() {
    let mut out = String::from("n = ");
    push_decimal(&mut out, 42);
    assert_eq!(out, "n = 42");
    push_signed_decimal(&mut out, -1);
    assert_eq!(out, "n = 42-1");
}

#[test]
fn signed_decimal_of_both_signs() {
    for number in [0, 1, -1, 9, -9, 10, -10, 2147483647, -2147483647, i32::MIN] {
        let mut out = String::new();
        push_signed_decimal(&mut out, number);
        assert_eq!(out, number.to_string());
    }
    let mut out = String::new();
    push_signed_decimal(&mut out, i32::MIN);
    assert_eq!(out, "-2147483648");
}

#[test]
fn debug_text_of_each_component() {
    assert_eq!(Health(100).into_box().debug_text(), "Health(100)");
    assert_eq!(Health(-3).into_box().debug_text(), "Health(-3)");
    assert_eq!(Position::new(10, 10).into_box().debug_text(), "Position { x: 10, y: 10 }");
    assert_eq!(Velocity::new(-1, 0).into_box().debug_text(), "Velocity { x: -1, y: 0 }");
    assert_eq!(Sprite::new(String::from("V")).into_box().debug_text(), "Sprite { sprite: \"V\" }");
    assert_eq!(PlayerTag.into_box().debug_text(), "PlayerTag");
    assert_eq!(EnemyTag.into_box().debug_text(), "EnemyTag");
}

#[test]
fn debug_text_is_the_derived_debug_form() {
    assert_eq!(Health(100).into_box().debug_text(), format!("{:?}", Health(100)));
    assert_eq!(
        Position::new(-4, 17).into_box().debug_text(),
        format!("{:?}", Position::new(-4, 17))
    );
    assert_eq!(Velocity::new(2, -2).into_box().debug_text(), format!("{:?}", Velocity::new(2, -2)));
    assert_eq!(
        Sprite::new(String::from("<>")).into_box().debug_text(),
        format!("{:?}", Sprite::new(String::from("<>")))
    );
    assert_eq!(PlayerTag.into_box().debug_text(), format!("{:?}", PlayerTag));
    assert_eq!(EnemyTag.into_box().debug_text(), format!("{:?}", EnemyTag));
}

#[test]
fn debug_text_of_a_sprite_escapes_its_glyph() {
    for glyph in ["\\", "\"", "\n", "\t", "a\\b\"c\nd", "", "\u{7f}", "\u{1b}[0m", "é", "'"] {
        let sprite = Sprite::new(String::from(glyph));
        assert_eq!(sprite.clone().into_box().debug_text(), format!("{:?}", sprite));
    }
    assert_eq!(
        Sprite::new(String::from("\\")).into_box().debug_text(),
        "Sprite { sprite: \"\\\\\" }"
    );
    assert_eq!(
        Sprite::new(String::from("\"")).into_box().debug_text(),
        "Sprite { sprite: \"\\\"\" }"
    );
    assert_eq!(
        Sprite::new(String::from("\n")).into_box().debug_text(),
        "Sprite { sprite: \"\\n\" }"
    );
}

#[test]
fn column_formats_a_sprite_as_its_debug_form() {
    let mut column = ComponentVec::new(ComponentKind::Sprite, 2);
    let sprite = Sprite::new(String::from("\\"));
    column.set(1, sprite.clone().into_box());
    assert_eq!(column.fmt_entity(1), format!("{:?}", sprite));
    assert_eq!(column.fmt_entity(1), "Sprite { sprite: \"\\\\\" }");
    assert_eq!(column.fmt_entity(0), "");
}

#[test]
fn sprite_text_stands_around_the_quoted_glyph() {
    assert_eq!(sprite_text("\"V\""), "Sprite { sprite: \"V\" }");
    assert_eq!(sprite_text(""), "Sprite { sprite:  }");
}

#[test]
fn items_are_joined_by_comma_and_space() {
    let mut items = String::new();
    push_item(&mut items, "");
    assert_eq!(items, "");
    push_item(&mut items, "a");
    assert_eq!(items, "a");
    push_item(&mut items, "");
    assert_eq!(items, "a");
    push_item(&mut items, "b");
    push_item(&mut items, "c");
    assert_eq!(items, "a, b, c");
}
