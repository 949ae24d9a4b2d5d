//! Laws of the grid model that the universe's operations obey.
use vstd::prelude::*;

use crate::cell::{flipped, Cell};
use crate::grid::{
    index_of,
    is_grid,
    lemma_index_decomposes,
    lemma_index_in_range,
    lemma_live_at_shifted,
    lemma_live_at_wrapped,
    live_at,
    neighbor_count,
    next_generation,
    next_state,
    shifted,
    toggled,
};

verus! {

/// Row-major addressing is a bijection between the positions `(row, column)`
/// with `row < height` and `column < width` and the indices
/// `0 .. width * height`: every position lands in range, distinct positions
/// get distinct indices, and every index is that of a position.
pub proof fn lemma_index_of_bijective(width: int, height: int)
    requires
        width > 0,
        height > 0,
    ensures
        forall|row: int, column: int|
            0 <= row < height && 0 <= column < width ==> 0 <= #[trigger] index_of(
                width,
                row,
                column,
            ) < width * height,
        forall|r1: int, c1: int, r2: int, c2: int|
            0 <= r1 < height && 0 <= c1 < width && 0 <= r2 < height && 0 <= c2 < width
                && #[trigger] index_of(width, r1, c1) == #[trigger] index_of(width, r2, c2) ==> r1
                == r2 && c1 == c2,
        forall|i: int|
            0 <= i < width * height ==> {
                &&& 0 <= #[trigger] (i / width) < height
                &&& 0 <= i % width < width
                &&& index_of(width, i / width, i % width) == i
            },
{
    assert forall|row: int, column: int|
        0 <= row < height && 0 <= column < width implies 0 <= #[trigger] index_of(
        width,
        row,
        column,
    ) < width * height by {
        lemma_index_in_range(width, height, row, column);
    }
    assert forall|r1: int, c1: int, r2: int, c2: int|
        0 <= r1 < height && 0 <= c1 < width && 0 <= r2 < height && 0 <= c2 < width
            && #[trigger] index_of(width, r1, c1) == #[trigger] index_of(width, r2, c2) implies r1
        == r2 && c1 == c2 by {
        lemma_index_in_range(width, height, r1, c1);
        lemma_index_in_range(width, height, r2, c2);
    }
    assert forall|i: int| 0 <= i < width * height implies {
        &&& 0 <= #[trigger] (i / width) < height
        &&& 0 <= i % width < width
        &&& index_of(width, i / width, i % width) == i
    } by {
        lemma_index_decomposes(width, height, i);
    }
}

/// A cell has between 0 and 8 live neighbours.
pub proof fn lemma_neighbor_count_bounds(
    cells: Seq<Cell>,
    width: int,
    height: int,
    row: int,
    column: int,
)
    ensures
        0 <= neighbor_count(cells, width, height, row, column) <= 8,
{
}

/// Neighbour counts move with the pattern: after the whole pattern is
/// shifted by `(dr, dc)` around the torus, the cell at the shifted position
/// has as many live neighbours as the original cell had.
pub proof fn lemma_neighbor_count_translation(
    cells: Seq<Cell>,
    width: int,
    height: int,
    dr: int,
    dc: int,
    row: int,
    column: int,
)
    requires
        is_grid(cells, width, height),
    ensures
        is_grid(shifted(cells, width, height, dr, dc), width, height),
        neighbor_count(
            shifted(cells, width, height, dr, dc),
            width,
            height,
            (row + dr) % height,
            (column + dc) % width,
        ) == neighbor_count(cells, width, height, row, column),
{
    let s = shifted(cells, width, height, dr, dc);
    assert forall|x: int, y: int|
        -1 <= x <= 1 && -1 <= y <= 1 implies live_at(
        s,
        width,
        height,
        (row + dr) % height + x,
        (column + dc) % width + y,
    ) == #[trigger] live_at(cells, width, height, row + x, column + y) by {
        lemma_live_at_wrapped(s, width, height, row + dr, column + dc, x, y);
        lemma_live_at_shifted(cells, width, height, dr, dc, row + x, column + y);
        assert(row + dr + x == row + x + dr);
        assert(column + dc + y == column + y + dc);
    }
    // neighbor_count writes the offsets -1 and 0 without a sign
    assert(row - 1 == row + -1);
    assert(column - 1 == column + -1);
    assert(row == row + 0);
    assert(column == column + 0);
}

/// A cell with exactly three live neighbours is alive in the next
/// generation, and one with at most one live neighbour is dead, whatever its
/// state now.
pub proof fn lemma_birth_and_loneliness(
    cells: Seq<Cell>,
    width: int,
    height: int,
    row: int,
    column: int,
)
    requires
        is_grid(cells, width, height),
        0 <= row < height,
        0 <= column < width,
    ensures
        neighbor_count(cells, width, height, row, column) == 3 ==> next_generation(
            cells,
            width,
            height,
        )[index_of(width, row, column)] == Cell::Alive,
        neighbor_count(cells, width, height, row, column) <= 1 ==> next_generation(
            cells,
            width,
            height,
        )[index_of(width, row, column)] == Cell::Dead,
{
    lemma_index_in_range(width, height, row, column);
}

/// The next generation depends on the current buffer alone: two buffers
/// with the same dimensions and the same cells have the same successor.
pub proof fn lemma_next_generation_deterministic(
    a: Seq<Cell>,
    b: Seq<Cell>,
    width: int,
    height: int,
)
    requires
        is_grid(a, width, height),
        is_grid(b, width, height),
        forall|i: int| 0 <= i < a.len() ==> a[i] == b[i],
    ensures
        next_generation(a, width, height) == next_generation(b, width, height),
{
    assert(a =~= b);
}

/// Toggling the same cell twice restores the buffer, and a single toggle
/// leaves every other cell as it was.
pub proof fn lemma_toggle_twice(cells: Seq<Cell>, width: int, height: int, row: int, column: int)
    requires
        is_grid(cells, width, height),
        0 <= row < height,
        0 <= column < width,
    ensures
        toggled(toggled(cells, width, row, column), width, row, column) == cells,
        toggled(cells, width, row, column).len() == cells.len(),
        toggled(cells, width, row, column)[index_of(width, row, column)] == flipped(
            cells[index_of(width, row, column)],
        ),
        forall|i: int|
            0 <= i < cells.len() && i != index_of(width, row, column) ==> #[trigger] toggled(
                cells,
                width,
                row,
                column,
            )[i] == cells[i],
{
    lemma_index_in_range(width, height, row, column);
    let i = index_of(width, row, column);
    assert(flipped(flipped(cells[i])) == cells[i]);
    assert(toggled(toggled(cells, width, row, column), width, row, column) =~= cells);
}

/// A grid with no live cell stays without one: nothing is born from nothing.
pub proof fn lemma_dead_grid_stays_dead(cells: Seq<Cell>, width: int, height: int)
    requires
        is_grid(cells, width, height),
        forall|i: int| 0 <= i < cells.len() ==> cells[i] == Cell::Dead,
    ensures
        forall|i: int|
            0 <= i < cells.len() ==> #[trigger] next_generation(cells, width, height)[i]
                == Cell::Dead,
{
    assert forall|i: int| 0 <= i < cells.len() implies #[trigger] next_generation(
        cells,
        width,
        height,
    )[i] == Cell::Dead by {
        lemma_index_decomposes(width, height, i);
        let r = i / width;
        let c = i % width;
        assert forall|x: int, y: int| true implies #[trigger] live_at(
            cells,
            width,
            height,
            x,
            y,
        ) == 0 by {
            vstd::arithmetic::div_mod::lemma_mod_bound(x, height);
            vstd::arithmetic::div_mod::lemma_mod_bound(y, width);
            lemma_index_in_range(width, height, x % height, y % width);
        }
        assert(neighbor_count(cells, width, height, r, c) == 0);
        assert(next_state(cells[i], 0) == Cell::Dead);
    }
}

} // verus!
