use vstd::prelude::*;

use crate::grid::next_state;

verus! {

/// The state of one cell of the grid.
#[derive(Clone, Copy, Debug, PartialEq, Eq, Structural)]
pub enum Cell {
    Dead,
    Alive,
}

/// The cell state with its value flipped.
pub open spec fn flipped(c: Cell) -> Cell {
    match c {
        Cell::Dead => Cell::Alive,
        Cell::Alive => Cell::Dead,
    }
}

/// 1 for a live cell, 0 for a dead one.
pub open spec fn liveness(c: Cell) -> int {
    match c {
        Cell::Dead => 0,
        Cell::Alive => 1,
    }
}

impl Cell {
    /// Flips the cell between `Dead` and `Alive`.
    pub fn toggle(&mut self)
        ensures
            *final(self) == flipped(*old(self)),
    {
        *self = match *self {
            Cell::Dead => Cell::Alive,
            Cell::Alive => Cell::Dead,
        }
    }

    /// The byte that stands for the cell: 0 when dead, 1 when alive.
    pub fn as_byte(&self) -> (r: u8)
        ensures
            r as int == liveness(*self),
    {
        match *self {
            Cell::Dead => 0,
            Cell::Alive => 1,
        }
    }

    /// The state of this cell in the next generation, given how many of its
    /// neighbours are alive now.
    pub fn successor(self, live_neighbors: u8) -> (r: Cell)
        ensures
            r == next_state(self, live_neighbors as int),
    {
        match (self, live_neighbors) {
            (Cell::Alive, x) if x < 2 || x > 3 => Cell::Dead,
            (Cell::Dead, 3) => Cell::Alive,
            (otherwise, _) => otherwise,
        }
    }
}

} // verus!
