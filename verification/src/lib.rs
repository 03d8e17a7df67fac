//! Conway's Game of Life on a fixed-size grid with a dead border.
//!
//! A `Board` holds a dense, row-major grid of cells, each `DEAD` (0) or
//! `ALIVE` (1). Reads outside the grid see a permanently dead border, so
//! edge cells simply have fewer live neighbours. `tick` applies the
//! standard Life rule to every cell of the previous generation and
//! returns a brand-new board; the input board is never modified.

pub mod board;
pub mod laws;
pub mod model;
