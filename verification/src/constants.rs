//! Game-wide constants, and the keys that steer the player.

use device_query::Keycode;
use vstd::prelude::*;

verus! {

/// Frames the game loop aims to show per second.
pub const TARGET_FPS: i32 = 60;

/// Width of the playing field, in cells.
pub const WINDOW_WIDTH: usize = 40;

/// Height of the playing field, in cells.
pub const WINDOW_HEIGHT: usize = 20;

/// Cells a steered entity moves per step along one axis.
pub const PLAYER_SPEED: i32 = 1;

/// `device_query::Keycode`, the keyboard crate's name of a key: an enum
/// without fields, of which this library only ever asks whether two values
/// are the same key.
#[verifier::external_type_specification]
#[verifier::external_body]
pub struct ExKeycode(Keycode);

/// `==` of `device_query::Keycode`, which the crate derives for its enum
/// without fields: two values are equal exactly when they are the same key.
#[verifier::external_body]
fn same_key(first: Keycode, second: Keycode) -> (same: bool)
    ensures
        same == (first == second),
{
    first == second
}

/// Tells whether `key` is among `keys`.
pub fn is_held(keys: &Vec<Keycode>, key: Keycode) -> (held: bool)
    ensures
        held == keys@.contains(key),
{
    let mut at: usize = 0;
    while at < keys.len()
        invariant
            at <= keys.len(),
            forall|before: int| 0 <= before < at ==> keys@[before] != key,
        decreases keys.len() - at,
    {
        if same_key(keys[at], key) {
            return true;
        }
        at += 1;
    }
    false
}

/// The four keys that steer.
#[derive(Debug, Clone, Copy)]
pub struct Controls {
    pub up: Keycode,
    pub down: Keycode,
    pub right: Keycode,
    pub left: Keycode,
}

impl Controls {
    pub fn new(up: Keycode, down: Keycode, right: Keycode, left: Keycode) -> (controls: Self)
        ensures
            controls == (Controls { up, down, right, left }),
    {
        Self { up, down, right, left }
    }

    /// The step that `input` asks for: one cell up, down, right or left for
    /// the key of that direction, tried in that order, and none for any
    /// other key. Up is towards row zero.
    pub open spec fn spec_step(&self, input: Keycode) -> (i32, i32) {
        if input == self.up {
            (0, (-PLAYER_SPEED) as i32)
        } else if input == self.down {
            (0, PLAYER_SPEED)
        } else if input == self.right {
            (PLAYER_SPEED, 0)
        } else if input == self.left {
            ((-PLAYER_SPEED) as i32, 0)
        } else {
            (0, 0)
        }
    }

    #[verifier::when_used_as_spec(spec_step)]
    pub fn step(&self, input: Keycode) -> (delta: (i32, i32))
        ensures
            delta == self.spec_step(input),
    {
        if same_key(input, self.up) {
            (0, -PLAYER_SPEED)
        } else if same_key(input, self.down) {
            (0, PLAYER_SPEED)
        } else if same_key(input, self.right) {
            (PLAYER_SPEED, 0)
        } else if same_key(input, self.left) {
            (-PLAYER_SPEED, 0)
        } else {
            (0, 0)
        }
    }

    /// The step that the keys held down ask for: along each axis one cell
    /// towards the direction whose key is held, and none where both keys of
    /// the axis are held or neither is.
    pub open spec fn spec_held_step(&self, keys: &Vec<Keycode>) -> (i32, i32) {
        (
            ((if keys@.contains(self.right) {
                PLAYER_SPEED as int
            } else {
                0
            }) - (if keys@.contains(self.left) {
                PLAYER_SPEED as int
            } else {
                0
            })) as i32,
            ((if keys@.contains(self.down) {
                PLAYER_SPEED as int
            } else {
                0
            }) - (if keys@.contains(self.up) {
                PLAYER_SPEED as int
            } else {
                0
            })) as i32,
        )
    }

    #[verifier::when_used_as_spec(spec_held_step)]
    pub fn held_step(&self, keys: &Vec<Keycode>) -> (delta: (i32, i32))
        ensures
            delta == self.spec_held_step(keys),
    {
        let mut delta: (i32, i32) = (0, 0);
        if is_held(keys, self.right) {
            delta.0 += PLAYER_SPEED;
        }
        if is_held(keys, self.left) {
            delta.0 -= PLAYER_SPEED;
        }
        if is_held(keys, self.up) {
            delta.1 -= PLAYER_SPEED;
        }
        if is_held(keys, self.down) {
            delta.1 += PLAYER_SPEED;
        }
        delta
    }
}

} // verus!
