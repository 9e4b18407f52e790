//! A toroidal Conway's Game of Life engine: a bit-packed grid of cells with
//! operations to seed, mutate, render and advance it one generation at a time.

pub mod bits;
pub mod laws;
pub mod model;
pub mod universe;

pub use universe::Universe;
