//! Conway's Game of Life on a fixed-size toroidal grid.
//!
//! The library owns the grid data model and the simulation rule: a square
//! board of cells, each `Alive` or `Dead` with an age counter, advanced one
//! generation at a time under the classic birth/survival/death rule with
//! wraparound (toroidal) neighbor indexing. Rendering and input live outside
//! the library and only read cells and call `toggle` and `step`.

pub mod board;
pub mod cell;
pub mod laws;
