//! Conway's Game of Life on a bounded, non-wrapping grid of boolean cells.
pub mod engine;
pub mod grid;
pub mod laws;
pub mod pattern;
pub mod session;
