//! Core of a turn-based dungeon crawler: procedural floor generation with a
//! guaranteed walkable route from start to exit, grid/tile classification,
//! shortest-path search over the grid, creature behaviour with a rest-after-
//! attack gate, and the player's movement/interaction engine.
//!
//! Rendering, input handling and the terminal front end live outside this
//! crate; they consume the grid, the visibility sets and the event log that
//! these modules produce.

pub mod entity;
pub mod events;
pub mod gen;
pub mod grid;
pub mod location;
pub mod log;
pub mod path;
pub mod player;
pub mod rng;
pub mod room;
pub mod text;
pub mod tile;

pub use grid::xy_idx;
