//! Objects of the playing field that carry their own position: anything
//! drawn as a sprite at a cell, the player who follows the keyboard among
//! them.

use crate::components::Position;
use crate::constants::Controls;
use device_query::Keycode;
use vstd::prelude::*;

verus! {

/// A sprite at a cell, `pos` being its column and its row.
#[derive(Debug)]
pub struct Object {
    pub sprite: String,
    pub pos: (i32, i32),
}

impl Clone for Object {
    fn clone(&self) -> (copy: Self)
        ensures
            copy == *self,
    {
        Object { sprite: self.sprite.clone(), pos: self.pos }
    }
}

impl Object {
    pub fn new(sprite: String, pos: (i32, i32)) -> (object: Self)
        ensures
            object == (Object { sprite, pos }),
    {
        Self { sprite, pos }
    }
}

/// The cell reached from `pos` by `delta`, held inside the playing field.
pub open spec fn moved_pos(pos: (i32, i32), delta: (i32, i32)) -> (i32, i32) {
    let to = (Position { x: pos.0, y: pos.1 }).moved(delta);
    (to.x, to.y)
}

/// The cell reached from `pos` by `delta`, held inside the playing field.
fn step_from(pos: (i32, i32), delta: (i32, i32)) -> (to: (i32, i32))
    ensures
        to == moved_pos(pos, delta),
{
    let mut at = Position::new(pos.0, pos.1);
    at.add(delta);
    (at.x, at.y)
}

/// What can be moved over the playing field.
pub trait Movable {
    /// The cell where this stands.
    spec fn pos(&self) -> (i32, i32);

    /// Moves by `delta`, and stops at the border of the playing field.
    fn move_pos(&mut self, delta: (i32, i32))
        ensures
            final(self).pos() == moved_pos(old(self).pos(), delta),
    ;
}

/// The object that follows the keyboard.
#[derive(Debug)]
pub struct Player {
    pub object: Object,
    pub controls: Controls,
}

impl Movable for Player {
    open spec fn pos(&self) -> (i32, i32) {
        self.object.pos
    }

    fn move_pos(&mut self, delta: (i32, i32))
        ensures
            final(self).object.sprite == old(self).object.sprite,
            final(self).controls == old(self).controls,
    {
        self.object.pos = step_from(self.object.pos, delta);
    }
}

impl Player {
    pub fn new(sprite: String, pos: (i32, i32), controls: Controls) -> (player: Self)
        ensures
            player == (Player { object: Object { sprite, pos }, controls }),
    {
        Self { object: Object::new(sprite, pos), controls }
    }

    /// Moves by the step that the key `input` asks for.
    pub fn apply_input(&mut self, input: Keycode)
        ensures
            *final(self) == (Player {
                object: Object {
                    pos: moved_pos(old(self).object.pos, old(self).controls.step(input)),
                    ..old(self).object
                },
                ..*old(self)
            }),
    {
        let delta = self.controls.step(input);
        self.move_pos(delta);
    }

    /// Moves by the step that the keys held down ask for.
    pub fn test_update(&mut self, keys: &Vec<Keycode>)
        ensures
            *final(self) == (Player {
                object: Object {
                    pos: moved_pos(old(self).object.pos, old(self).controls.held_step(keys)),
                    ..old(self).object
                },
                ..*old(self)
            }),
    {
        let delta = self.controls.held_step(keys);
        self.move_pos(delta);
    }
}

/// An object that moves on its own.
#[derive(Debug)]
pub struct Enemy {
    pub object: Object,
}

impl Enemy {
    pub fn new(sprite: String, pos: (i32, i32)) -> (enemy: Self)
        ensures
            enemy == (Enemy { object: Object { sprite, pos } }),
    {
        Self { object: Object::new(sprite, pos) }
    }
}

impl Movable for Enemy {
    open spec fn pos(&self) -> (i32, i32) {
        self.object.pos
    }

    fn move_pos(&mut self, delta: (i32, i32))
        ensures
            final(self).object.sprite == old(self).object.sprite,
    {
        self.object.pos = step_from(self.object.pos, delta);
    }
}

} // verus!
