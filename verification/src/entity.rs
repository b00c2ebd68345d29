//! Entities that carry their components as fields: the player and the
//! enemies of the playing field, as the screen draws them.

use crate::components::{Position, Sprite};
use crate::constants::{Controls, WINDOW_HEIGHT, WINDOW_WIDTH};
use device_query::Keycode;
use vstd::prelude::*;

verus! {

/// One of the things on the playing field.
pub enum Entity {
    Player(Player),
    Enemy(Enemy),
}

impl Entity {
    /// The glyph this entity is drawn with.
    pub open spec fn sprite(&self) -> Seq<char> {
        match self {
            Entity::Player(player) => player.sprite@,
            Entity::Enemy(enemy) => enemy.sprite@,
        }
    }

    /// The cell where this entity stands: its column and its row.
    pub open spec fn pos(&self) -> (i32, i32) {
        match self {
            Entity::Player(player) => (player.pos.x, player.pos.y),
            Entity::Enemy(enemy) => (enemy.pos.x, enemy.pos.y),
        }
    }

    pub fn get_sprite(&self) -> (sprite: String)
        ensures
            sprite@ == self.sprite(),
    {
        match self {
            Entity::Player(p) => p.sprite.to_string(),
            Entity::Enemy(e) => e.sprite.to_string(),
        }
    }

    pub fn get_pos(&self) -> (pos: (i32, i32))
        ensures
            pos == self.pos(),
    {
        match self {
            Entity::Player(p) => (p.pos.x, p.pos.y),
            Entity::Enemy(e) => (e.pos.x, e.pos.y),
        }
    }
}

/// The entity that follows the keyboard.
#[derive(Debug)]
pub struct Player {
    pub pos: Position,
    pub sprite: Sprite,
    pub controls: Controls,
}

impl Clone for Player {
    fn clone(&self) -> (copy: Self)
        ensures
            copy == *self,
    {
        Player { pos: self.pos, sprite: self.sprite.clone(), controls: self.controls }
    }
}

impl Player {
    pub fn new(sprite_str: String, x: i32, y: i32, controls: Controls) -> (player: Self)
        ensures
            player.pos == (Position { x, y }),
            player.sprite@ == sprite_str@,
            player.controls == controls,
    {
        Self { pos: Position::new(x, y), sprite: Sprite::new(sprite_str), controls }
    }

    /// Moves by the step that the key `input` asks for.
    pub fn apply_input(&mut self, input: Keycode)
        ensures
            *final(self) == (Player {
                pos: old(self).pos.moved(old(self).controls.step(input)),
                ..*old(self)
            }),
    {
        let delta = self.controls.step(input);
        self.pos.add(delta);
    }

    /// Moves by the step that the keys held down ask for.
    pub fn update(&mut self, keys: &Vec<Keycode>)
        ensures
            *final(self) == (Player {
                pos: old(self).pos.moved(old(self).controls.held_step(keys)),
                ..*old(self)
            }),
    {
        let delta = self.controls.held_step(keys);
        self.pos.add(delta);
    }
}

/// An entity that drifts on its own.
#[derive(Debug)]
pub struct Enemy {
    pub pos: Position,
    pub sprite: Sprite,
}

impl Clone for Enemy {
    fn clone(&self) -> (copy: Self)
        ensures
            copy == *self,
    {
        Enemy { pos: self.pos, sprite: self.sprite.clone() }
    }
}

impl Enemy {
    pub fn new(sprite_str: String, x: i32, y: i32) -> (enemy: Self)
        ensures
            enemy.pos == (Position { x, y }),
            enemy.sprite@ == sprite_str@,
    {
        Self { pos: Position::new(x, y), sprite: Sprite::new(sprite_str) }
    }

    /// Where an enemy stands once it was taken off the far borders: a
    /// coordinate at or beyond the last column or row is put back to the
    /// middle of its axis.
    pub open spec fn recentred(pos: Position) -> Position {
        Position {
            x: if pos.x >= WINDOW_WIDTH - 1 {
                ((WINDOW_WIDTH - 1) / 2) as i32
            } else {
                pos.x
            },
            y: if pos.y >= WINDOW_HEIGHT - 1 {
                ((WINDOW_HEIGHT - 1) / 2) as i32
            } else {
                pos.y
            },
        }
    }

    /// Takes the enemy off the far borders of the playing field, and tells
    /// whether it had reached one: it then starts again from rest.
    pub fn recentre(&mut self) -> (reset: bool)
        ensures
            final(self).pos == Self::recentred(old(self).pos),
            final(self).sprite == old(self).sprite,
            reset == (old(self).pos.x >= WINDOW_WIDTH - 1 || old(self).pos.y >= WINDOW_HEIGHT - 1),
    {
        let mut reset = false;
        if self.pos.x >= (WINDOW_WIDTH - 1) as i32 {
            self.pos.x = (WINDOW_WIDTH - 1) as i32 / 2;
            reset = true;
        }
        if self.pos.y >= (WINDOW_HEIGHT - 1) as i32 {
            self.pos.y = (WINDOW_HEIGHT - 1) as i32 / 2;
            reset = true;
        }
        reset
    }
}

} // verus!
