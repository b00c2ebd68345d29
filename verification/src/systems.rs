//! The systems: passes over the columns of a world.

pub mod movement;
