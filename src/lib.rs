//! Conway's Game of Life on a toroidal grid, with a double-buffered engine.
pub mod conway;
pub mod game;
pub mod grid;
pub mod rules;
