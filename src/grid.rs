//! The mathematical model of a toroidal grid of cells, stored row by row.
use vstd::prelude::*;

use vstd::arithmetic::div_mod::{
    lemma_add_mod_noop_right,
    lemma_fundamental_div_mod_converse,
    lemma_mod_add_multiples_vanish,
    lemma_mod_bound,
    lemma_small_mod,
    lemma_sub_mod_noop_right,
};

use crate::cell::{flipped, liveness, Cell};

verus! {

/// A buffer of `width * height` cells with positive dimensions.
pub open spec fn is_grid(cells: Seq<Cell>, width: int, height: int) -> bool {
    &&& width > 0
    &&& height > 0
    &&& cells.len() == width * height
}

/// The position in the row-major buffer of the cell at `(row, column)`.
pub open spec fn index_of(width: int, row: int, column: int) -> int {
    row * width + column
}

/// 1 when the cell at `(row, column)` is alive, 0 when it is dead. The
/// coordinates wrap around the torus, so any integers are accepted.
pub open spec fn live_at(cells: Seq<Cell>, width: int, height: int, row: int, column: int) -> int {
    liveness(cells[index_of(width, row % height, column % width)])
}

/// The number of live cells among the eight neighbours of `(row, column)`
/// on the torus.
pub open spec fn neighbor_count(
    cells: Seq<Cell>,
    width: int,
    height: int,
    row: int,
    column: int,
) -> int {
    live_at(cells, width, height, row - 1, column - 1) + live_at(cells, width, height, row - 1, column)
        + live_at(cells, width, height, row - 1, column + 1) + live_at(
        cells,
        width,
        height,
        row,
        column - 1,
    ) + live_at(cells, width, height, row, column + 1) + live_at(
        cells,
        width,
        height,
        row + 1,
        column - 1,
    ) + live_at(cells, width, height, row + 1, column) + live_at(
        cells,
        width,
        height,
        row + 1,
        column + 1,
    )
}

/// Conway's rule: a cell is alive in the next generation when it has three
/// live neighbours, or when it is alive now and has two.
pub open spec fn next_state(cell: Cell, live_neighbors: int) -> Cell {
    if live_neighbors == 3 || (cell == Cell::Alive && live_neighbors == 2) {
        Cell::Alive
    } else {
        Cell::Dead
    }
}

/// The generation that follows `cells`: every cell is updated from the
/// current buffer only.
pub open spec fn next_generation(cells: Seq<Cell>, width: int, height: int) -> Seq<Cell> {
    Seq::new(
        cells.len(),
        |i: int| next_state(cells[i], neighbor_count(cells, width, height, i / width, i % width)),
    )
}

/// `cells` with the cell at `(row, column)` flipped.
pub open spec fn toggled(cells: Seq<Cell>, width: int, row: int, column: int) -> Seq<Cell> {
    cells.update(index_of(width, row, column), flipped(cells[index_of(width, row, column)]))
}

/// The seed state of the cell at position `i`: alive when `i` is a multiple
/// of 2 or of 7.
pub open spec fn seed_cell(i: int) -> Cell {
    if i % 2 == 0 || i % 7 == 0 {
        Cell::Alive
    } else {
        Cell::Dead
    }
}

/// The seed buffer of `n` cells.
pub open spec fn seed_cells(n: nat) -> Seq<Cell> {
    Seq::new(n, |i: int| seed_cell(i))
}

/// `cells` with its whole pattern moved by `(dr, dc)` on the torus: the cell
/// found at `(r, c)` afterwards is the one that stood at `(r - dr, c - dc)`.
pub open spec fn shifted(cells: Seq<Cell>, width: int, height: int, dr: int, dc: int) -> Seq<Cell> {
    Seq::new(
        cells.len(),
        |i: int| cells[index_of(width, (i / width - dr) % height, (i % width - dc) % width)],
    )
}

/// An in-range position has an in-range index, from which the row and the
/// column are read back by division.
pub proof fn lemma_index_in_range(width: int, height: int, row: int, column: int)
    requires
        0 <= row < height,
        0 <= column < width,
    ensures
        0 <= index_of(width, row, column) < width * height,
        index_of(width, row, column) / width == row,
        index_of(width, row, column) % width == column,
{
    assert(0 <= row * width + column < width * height) by (nonlinear_arith)
        requires
            0 <= row < height,
            0 <= column < width,
    ;
    lemma_fundamental_div_mod_converse(index_of(width, row, column), width, row, column);
}

/// Every index below `width * height` is that of an in-range position.
pub proof fn lemma_index_decomposes(width: int, height: int, i: int)
    requires
        width > 0,
        height > 0,
        0 <= i < width * height,
    ensures
        0 <= i / width < height,
        0 <= i % width < width,
        index_of(width, i / width, i % width) == i,
{
    lemma_mod_bound(i, width);
    let q = i / width;
    let r = i % width;
    assert(i == width * q + r) by {
        vstd::arithmetic::div_mod::lemma_fundamental_div_mod(i, width);
    }
    assert(0 <= q < height) by (nonlinear_arith)
        requires
            i == width * q + r,
            0 <= r < width,
            0 <= i < width * height,
    ;
    vstd::arithmetic::mul::lemma_mul_is_commutative(width, q);
}

/// The row above `row` on a torus of `n` rows.
pub proof fn lemma_wrap_pred(x: int, n: int)
    requires
        0 <= x < n,
    ensures
        (x - 1) % n == if x == 0 {
            n - 1
        } else {
            x - 1
        },
        x % n == x,
{
    lemma_small_mod(x as nat, n as nat);
    if x == 0 {
        lemma_mod_add_multiples_vanish(-1, n);
        lemma_small_mod((n - 1) as nat, n as nat);
    } else {
        lemma_small_mod((x - 1) as nat, n as nat);
    }
}

/// The row below `row` on a torus of `n` rows.
pub proof fn lemma_wrap_succ(x: int, n: int)
    requires
        0 <= x < n,
    ensures
        (x + 1) % n == if x == n - 1 {
            0
        } else {
            x + 1
        },
{
    if x == n - 1 {
        vstd::arithmetic::div_mod::lemma_mod_self_0(n);
    } else {
        lemma_small_mod((x + 1) as nat, n as nat);
    }
}

/// Wrapping a coordinate before an offset is added changes nothing.
pub proof fn lemma_live_at_wrapped(
    cells: Seq<Cell>,
    width: int,
    height: int,
    row: int,
    column: int,
    a: int,
    b: int,
)
    requires
        width > 0,
        height > 0,
    ensures
        live_at(cells, width, height, row % height + a, column % width + b) == live_at(
            cells,
            width,
            height,
            row + a,
            column + b,
        ),
{
    lemma_add_mod_noop_right(a, row, height);
    lemma_add_mod_noop_right(b, column, width);
    assert(row % height + a == a + row % height);
    assert(column % width + b == b + column % width);
}

/// Moving the pattern by `(dr, dc)` moves each cell's liveness with it.
pub proof fn lemma_live_at_shifted(
    cells: Seq<Cell>,
    width: int,
    height: int,
    dr: int,
    dc: int,
    row: int,
    column: int,
)
    requires
        is_grid(cells, width, height),
    ensures
        live_at(shifted(cells, width, height, dr, dc), width, height, row + dr, column + dc)
            == live_at(cells, width, height, row, column),
{
    let rr = (row + dr) % height;
    let cc = (column + dc) % width;
    lemma_mod_bound(row + dr, height);
    lemma_mod_bound(column + dc, width);
    lemma_index_in_range(width, height, rr, cc);
    let i = index_of(width, rr, cc);
    lemma_sub_mod_noop_right(row + dr, dr, height);
    lemma_sub_mod_noop_right(column + dc, dc, width);
    assert((rr - dr) % height == row % height) by {
        vstd::arithmetic::div_mod::lemma_sub_mod_noop(row + dr, dr, height);
        vstd::arithmetic::div_mod::lemma_add_mod_noop(row + dr, -dr, height);
        lemma_add_mod_noop_right(-dr, row + dr, height);
        assert(rr - dr == -dr + rr);
        assert(row + dr - dr == row);
        assert(-dr + (row + dr) == row);
    }
    assert((cc - dc) % width == column % width) by {
        lemma_add_mod_noop_right(-dc, column + dc, width);
        assert(cc - dc == -dc + cc);
        assert(-dc + (column + dc) == column);
    }
}

} // verus!
