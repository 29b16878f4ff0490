//! Core of a Conway's Game of Life simulation: a toroidal grid of cells,
//! the standard B3/S23 generation-advance rule, and randomized seeding.

pub mod engine;
pub mod grid;
pub mod laws;
mod rng;

pub use grid::GridCell;
