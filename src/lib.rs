//! Conway's Game of Life on a bounded grid: the cell engine, its
//! coordinate maps, random seeding and a text rendering of a generation.
pub mod grid;
pub mod render;
pub mod lemmas;
pub mod config;
