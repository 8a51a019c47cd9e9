//! Procedural dungeon generation on a grid of walkable and blocked tiles,
//! with the movement rule that consults the grid.

pub mod carve;
pub mod dungeon;
pub mod grid;
pub mod object;
mod random;
pub mod rect;

