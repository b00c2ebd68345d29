//! An entity-component store and the small terminal game built on it.
//!
//! Entities are row numbers. Components are typed values, kept in one
//! column per type, and every column has exactly one slot per entity. A
//! [`world::World`] owns the columns and the entity count; systems read and
//! write a column through a view that the world grants at run time, many
//! shared views or one exclusive view at a time.
//!
//! - [`components`]: the component types, their type tokens, and the erased
//!   form in which a column stores them.
//! - [`access`], [`column`], [`world`]: arbitration of views, one column, and
//!   the registry.
//! - [`model`], [`laws`]: the mathematical model of a world, and what is
//!   proved of it.
//! - [`render`]: the text forms used for diagnostics.
//! - [`systems`]: the passes that move entities.
//! - [`constants`], [`object`], [`entity`], [`screen`], [`utils`]: the
//!   playing field, the things on it, and how they are drawn.

pub mod access;
pub mod column;
pub mod components;
pub mod constants;
pub mod entity;
pub mod laws;
pub mod model;
pub mod object;
pub mod render;
pub mod screen;
pub mod systems;
pub mod utils;
pub mod world;
