//! Conway's Game of Life on a fixed-size grid, double buffered, with the
//! next generation and the list of live cells proved against a mathematical
//! model of the rules.

pub mod engine;
pub mod laws;
pub mod rules;
pub mod sim;
