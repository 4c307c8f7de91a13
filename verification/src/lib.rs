//! Conway's Game of Life on a torus: a rectangular grid of cells whose
//! opposite edges are adjacent, advanced one generation at a time.

pub mod cell;
pub mod grid;
pub mod laws;
pub mod patterns;
pub mod world;

pub use cell::Cell;
pub use world::{wrapped_neighbor_values, World};
