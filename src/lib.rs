//! Conway's Game of Life on a bounded, double-buffered grid: the cells
//! outside the grid count as dead, generations alternate between two planes,
//! and a diff between the planes lists the cells that must be repainted.

pub mod model;
pub mod grid;
pub mod engine;
pub mod diff;
pub mod seed;
pub mod laws;
pub mod input;
pub mod frame;
