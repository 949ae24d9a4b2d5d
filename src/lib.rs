//! Conway's Game of Life on a fixed-size toroidal grid.
use vstd::prelude::*;

pub mod cell;
pub mod grid;
pub mod theorems;
pub mod universe;

pub use cell::Cell;
pub use universe::{Universe, DEFAULT_HEIGHT, DEFAULT_WIDTH};
