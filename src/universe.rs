//! The universe: a toroidal grid of cells that advances one generation at a time.
use vstd::prelude::*;

use crate::cell::{liveness, Cell};
use crate::grid::{
    index_of,
    is_grid,
    lemma_index_in_range,
    lemma_wrap_pred,
    lemma_wrap_succ,
    live_at,
    neighbor_count,
    next_generation,
    seed_cells,
    toggled,
};

verus! {

/// Width of the universe that `Universe::new` builds.
pub const DEFAULT_WIDTH: u32 = 400;

/// Height of the universe that `Universe::new` builds.
pub const DEFAULT_HEIGHT: u32 = 400;

/// A grid of `width * height` cells, stored row by row, whose edges wrap
/// around.
pub struct Universe {
    width: u32,
    height: u32,
    cells: Vec<Cell>,
}

impl View for Universe {
    type V = Seq<Cell>;

    /// The current generation, row by row.
    closed spec fn view(&self) -> Seq<Cell> {
        self.cells@
    }
}

impl Universe {
    /// The width of the grid.
    pub closed spec fn spec_width(&self) -> u32 {
        self.width
    }

    /// The height of the grid.
    pub closed spec fn spec_height(&self) -> u32 {
        self.height
    }

    /// Positive dimensions, a buffer of exactly `width * height` cells, and
    /// every index that fits in a `usize`.
    pub open spec fn wf(&self) -> bool {
        &&& is_grid(self@, self.width() as int, self.height() as int)
        &&& self.width() * self.height() <= usize::MAX
    }

    /// A universe of the given size, seeded with the fixed pattern in which
    /// the cell at position `i` is alive when `i` is a multiple of 2 or of 7.
    pub fn with_size(width: u32, height: u32) -> (r: Universe)
        requires
            width > 0,
            height > 0,
            width * height <= usize::MAX,
        ensures
            r.wf(),
            r.width() == width,
            r.height() == height,
            r@ == seed_cells((width * height) as nat),
    {
        let n: usize = width as usize * height as usize;
        let mut cells: Vec<Cell> = Vec::with_capacity(n);
        let mut i: usize = 0;
        while i < n
            invariant
                i <= n,
                cells@ == seed_cells(i as nat),
            decreases n - i,
        {
            let c = if i % 2 == 0 || i % 7 == 0 {
                Cell::Alive
            } else {
                Cell::Dead
            };
            cells.push(c);
            i = i + 1;
            assert(cells@ =~= seed_cells(i as nat));
        }
        Universe { width, height, cells }
    }

    /// The seeded universe of the default size.
    pub fn new() -> (r: Universe)
        ensures
            r.wf(),
            r.width() == DEFAULT_WIDTH,
            r.height() == DEFAULT_HEIGHT,
            r@ == seed_cells((DEFAULT_WIDTH * DEFAULT_HEIGHT) as nat),
    {
        Universe::with_size(DEFAULT_WIDTH, DEFAULT_HEIGHT)
    }

    /// A universe holding the given buffer, row by row; `None` when a
    /// dimension is zero or the buffer does not hold `width * height` cells.
    pub fn from_cells(width: u32, height: u32, cells: Vec<Cell>) -> (r: Option<Universe>)
        ensures
            r is Some <==> (width > 0 && height > 0 && cells@.len() == width * height),
            r matches Some(u) ==> u.wf() && u.width() == width && u.height() == height && u@
                == cells@,
    {
        if width == 0 || height == 0 {
            return None;
        }
        proof {
            assert(width * height <= u32::MAX * u32::MAX) by (nonlinear_arith)
                requires
                    width <= u32::MAX,
                    height <= u32::MAX,
            ;
        }
        if cells.len() as u64 != width as u64 * height as u64 {
            return None;
        }
        Some(Universe { width, height, cells })
    }

    /// The width of the grid.
    #[verifier::when_used_as_spec(spec_width)]
    pub fn width(&self) -> (r: u32)
        ensures
            r == self.width(),
    {
        self.width
    }

    /// The height of the grid.
    #[verifier::when_used_as_spec(spec_height)]
    pub fn height(&self) -> (r: u32)
        ensures
            r == self.height(),
    {
        self.height
    }

    /// The current generation, row by row, without copying. The view lives
    /// only until the next `tick` or `toggle_cell`.
    pub fn cells(&self) -> (r: &[Cell])
        ensures
            r@ == self@,
    {
        self.cells.as_slice()
    }

    /// The current generation as bytes, row by row: 0 for a dead cell and 1
    /// for a live one.
    pub fn cell_bytes(&self) -> (r: Vec<u8>)
        ensures
            r@.len() == self@.len(),
            forall|i: int| 0 <= i < r@.len() ==> r@[i] as int == liveness(#[trigger] self@[i]),
    {
        let mut out: Vec<u8> = Vec::with_capacity(self.cells.len());
        let mut i: usize = 0;
        while i < self.cells.len()
            invariant
                i <= self@.len(),
                out@.len() == i,
                forall|k: int| 0 <= k < i ==> out@[k] as int == liveness(#[trigger] self@[k]),
            decreases self@.len() - i,
        {
            out.push(self.cells[i].as_byte());
            i = i + 1;
        }
        out
    }

    /// Advances the universe by one generation. Every cell is updated by
    /// Conway's rule from the buffer as it stood before the call, and the new
    /// buffer replaces the old one once it is complete.
    pub fn tick(&mut self)
        requires
            old(self).wf(),
        ensures
            final(self).wf(),
            final(self).width() == old(self).width(),
            final(self).height() == old(self).height(),
            final(self)@ == next_generation(old(self)@, old(self).width() as int, old(self).height() as int),
    {
        let ghost w = self.width() as int;
        let ghost h = self.height() as int;
        let ghost target = next_generation(self@, w, h);
        let mut next: Vec<Cell> = Vec::with_capacity(self.cells.len());
        let mut row: u32 = 0;
        while row < self.height
            invariant
                self.wf(),
                w == self.width(),
                h == self.height(),
                target == next_generation(self@, w, h),
                row <= h,
                next@.len() == row * w,
                forall|k: int| 0 <= k < next@.len() ==> next@[k] == #[trigger] target[k],
            decreases h - row,
        {
            let mut column: u32 = 0;
            while column < self.width
                invariant
                    self.wf(),
                    w == self.width(),
                    h == self.height(),
                    target == next_generation(self@, w, h),
                    row < h,
                    column <= w,
                    next@.len() == row * w + column,
                    forall|k: int| 0 <= k < next@.len() ==> next@[k] == #[trigger] target[k],
                decreases w - column,
            {
                let index = self.get_index(row, column);
                let cell = self.cells[index];
                let live_neighbors = self.live_neighbor_count_improved(row, column);
                proof {
                    lemma_index_in_range(w, h, row as int, column as int);
                }
                next.push(cell.successor(live_neighbors));
                column = column + 1;
            }
            proof {
                assert((row + 1) * w == row * w + w) by (nonlinear_arith);
            }
            row = row + 1;
        }
        proof {
            vstd::arithmetic::mul::lemma_mul_is_commutative(w, h);
            assert(next@ =~= target);
        }
        self.cells = next;
    }

    /// Flips the cell at `(row, column)` between dead and alive, leaving
    /// every other cell as it is.
    pub fn toggle_cell(&mut self, row: u32, column: u32)
        requires
            old(self).wf(),
            row < old(self).height(),
            column < old(self).width(),
        ensures
            final(self).wf(),
            final(self).width() == old(self).width(),
            final(self).height() == old(self).height(),
            final(self)@ == toggled(old(self)@, old(self).width() as int, row as int, column as int),
    {
        let index = self.get_index(row, column);
        let mut cell = self.cells[index];
        cell.toggle();
        self.cells.set(index, cell);
    }

    /// The position in the buffer of the cell at `(row, column)`.
    fn get_index(&self, row: u32, column: u32) -> (r: usize)
        requires
            self.wf(),
            row < self.height(),
            column < self.width(),
        ensures
            r == index_of(self.width() as int, row as int, column as int),
            r < self@.len(),
    {
        proof {
            lemma_index_in_range(self.width as int, self.height as int, row as int, column as int);
        }
        row as usize * self.width as usize + column as usize
    }

    /// 1 when the cell at `(row, column)` is alive, 0 when it is dead.
    fn live(&self, row: u32, column: u32) -> (r: u8)
        requires
            self.wf(),
            row < self.height(),
            column < self.width(),
        ensures
            r as int == liveness(self@[index_of(self.width() as int, row as int, column as int)]),
            r <= 1,
    {
        let index = self.get_index(row, column);
        self.cells[index].as_byte()
    }
}

/// The sum of the liveness of the first `k` positions of the 3x3 window
/// centred on `(row, column)`, read row by row, leaving out the centre.
spec fn window_sum(cells: Seq<Cell>, width: int, height: int, row: int, column: int, k: int) -> int
    decreases k,
{
    if k <= 0 {
        0
    } else {
        window_sum(cells, width, height, row, column, k - 1) + if k - 1 == 4 {
            0
        } else {
            live_at(cells, width, height, row + (k - 1) / 3 - 1, column + (k - 1) % 3 - 1)
        }
    }
}

impl Universe {
    /// The number of live neighbours of `(row, column)` on the torus, found by
    /// walking the offsets -1, 0 and +1 (taken modulo the dimension) in both
    /// directions.
    pub fn live_neighbor_count(&self, row: u32, column: u32) -> (r: u8)
        requires
            self.wf(),
            row < self.height(),
            column < self.width(),
        ensures
            r as int == neighbor_count(self@, self.width() as int, self.height() as int, row as int, column as int),
            r <= 8,
    {
        let ghost cells = self@;
        let ghost w = self.width() as int;
        let ghost h = self.height() as int;
        let row_deltas: [u32; 3] = [self.height - 1, 0, 1];
        let column_deltas: [u32; 3] = [self.width - 1, 0, 1];
        let mut count: u8 = 0;
        let mut i: usize = 0;
        while i < 3
            invariant
                self.wf(),
                cells == self@,
                w == self.width(),
                h == self.height(),
                row < h,
                column < w,
                row_deltas@ == seq![(h - 1) as u32, 0u32, 1u32],
                column_deltas@ == seq![(w - 1) as u32, 0u32, 1u32],
                i <= 3,
                count as int == window_sum(cells, w, h, row as int, column as int, 3 * i),
                count <= 3 * i,
            decreases 3 - i,
        {
            let mut j: usize = 0;
            while j < 3
                invariant
                    self.wf(),
                    cells == self@,
                    w == self.width(),
                    h == self.height(),
                    row < h,
                    column < w,
                    row_deltas@ == seq![(h - 1) as u32, 0u32, 1u32],
                    column_deltas@ == seq![(w - 1) as u32, 0u32, 1u32],
                    i < 3,
                    j <= 3,
                    count as int == window_sum(cells, w, h, row as int, column as int, 3 * i + j),
                    count <= 3 * i + j,
                decreases 3 - j,
            {
                let k: usize = 3 * i + j;
                proof {
                    vstd::arithmetic::div_mod::lemma_fundamental_div_mod_converse(k as int, 3, i as int, j as int);
                }
                if !(i == 1 && j == 1) {
                    let neighbor_row = ((row as u64 + row_deltas[i] as u64) % self.height as u64) as u32;
                    let neighbor_column = ((column as u64 + column_deltas[j] as u64) % self.width as u64) as u32;
                    proof {
                        vstd::arithmetic::div_mod::lemma_mod_add_multiples_vanish(row - 1, h);
                        vstd::arithmetic::div_mod::lemma_mod_add_multiples_vanish(column - 1, w);
                        vstd::arithmetic::div_mod::lemma_mod_bound(row + i - 1, h);
                        vstd::arithmetic::div_mod::lemma_mod_bound(column + j - 1, w);
                        assert(neighbor_row == (row + i - 1) % h);
                        assert(neighbor_column == (column + j - 1) % w);
                    }
                    let index = self.get_index(neighbor_row, neighbor_column);
                    count = count + self.cells[index].as_byte();
                }
                j = j + 1;
            }
            i = i + 1;
        }
        proof {
            reveal_with_fuel(window_sum, 10);
        }
        count
    }

    /// The number of live neighbours of `(row, column)` on the torus, found
    /// from the wrapped row above and below and column left and right.
    pub fn live_neighbor_count_improved(&self, row: u32, column: u32) -> (r: u8)
        requires
            self.wf(),
            row < self.height(),
            column < self.width(),
        ensures
            r as int == neighbor_count(self@, self.width() as int, self.height() as int, row as int, column as int),
            r <= 8,
    {
        let north = if row == 0 {
            self.height - 1
        } else {
            row - 1
        };
        let south = if row == self.height - 1 {
            0
        } else {
            row + 1
        };
        let west = if column == 0 {
            self.width - 1
        } else {
            column - 1
        };
        let east = if column == self.width - 1 {
            0
        } else {
            column + 1
        };
        proof {
            lemma_wrap_pred(row as int, self.height as int);
            lemma_wrap_succ(row as int, self.height as int);
            lemma_wrap_pred(column as int, self.width as int);
            lemma_wrap_succ(column as int, self.width as int);
        }
        let count = self.live(north, west) + self.live(north, column) + self.live(north, east)
            + self.live(row, west) + self.live(row, east) + self.live(south, west)
            + self.live(south, column) + self.live(south, east);
        count
    }
}

} // verus!
