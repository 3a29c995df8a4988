//! The cell grid of a Game of Life universe: a dense row-major vector of
//! cells together with the toroidal coordinate arithmetic over it.

use rand::Rng;
use vstd::arithmetic::div_mod::{lemma_fundamental_div_mod_converse, lemma_small_mod};
use vstd::prelude::*;

verus! {

/// Relies on rand::Rng::gen_range over rand::thread_rng: a uniform draw
/// from the inclusive range 0..=3 (the range is non-empty, so the call
/// cannot panic; nothing more can be promised of a random value).
#[verifier::external_body]
fn random_draw() -> (r: u32)
    ensures
        r <= 3,
{
    rand::thread_rng().gen_range(0..=3)
}

/// The state of a single cell.
#[derive(Copy, Clone, Debug, Eq, PartialEq, Structural)]
pub enum Cell {
    Dead,
    Alive,
}

/// A fixed-size toroidal grid of cells, stored row-major:
/// the cell at (row, col) lives at index `row * width + col`.
pub struct Universe {
    pub width: u32,
    pub height: u32,
    pub cells: Vec<Cell>,
}

/// The coordinate one step down (towards 0) on a cycle of length `m`,
/// written with the modulus pre-added so the argument never goes negative.
pub open spec fn wrap_dec(i: int, m: int) -> int {
    (i + m - 1) % m
}

/// The coordinate one step up on a cycle of length `m`.
pub open spec fn wrap_inc(i: int, m: int) -> int {
    (i + 1) % m
}

/// The B3/S23 transition rule: a live cell survives on 2 or 3 live
/// neighbors and otherwise dies; a dead cell is born on exactly 3.
pub open spec fn next_cell(cell: Cell, count: int) -> Cell {
    match cell {
        Cell::Alive => if 2 <= count <= 3 {
            Cell::Alive
        } else {
            Cell::Dead
        },
        Cell::Dead => if count == 3 {
            Cell::Alive
        } else {
            Cell::Dead
        },
    }
}

/// One synchronous generation: the dimensions are unchanged and every
/// cell of `next` is the rule applied to the corresponding cell of
/// `prev` and its neighbor count in `prev` alone — the new generation is
/// a function of the old one, so no partly-updated state can leak into
/// any cell's decision.
pub open spec fn evolved(prev: Universe, next: Universe) -> bool {
    &&& next.width == prev.width
    &&& next.height == prev.height
    &&& next.cells.len() == prev.cells.len()
    &&& forall|row: int, col: int|
        prev.in_bounds(row, col) ==> #[trigger] next.cell_at(row, col) == next_cell(
            prev.cell_at(row, col),
            prev.neighbor_count(row, col),
        )
}

impl Universe {
    /// Both dimensions are positive, their product fits the index type,
    /// and the cell vector holds exactly one entry per grid position.
    pub open spec fn well_formed(self) -> bool {
        &&& 1 <= self.width
        &&& 1 <= self.height
        &&& self.width * self.height <= u32::MAX
        &&& self.cells.len() == self.width * self.height
    }

    pub open spec fn in_bounds(self, row: int, col: int) -> bool {
        0 <= row < self.height && 0 <= col < self.width
    }

    /// The cell stored at (row, col).
    pub open spec fn cell_at(self, row: int, col: int) -> Cell {
        self.cells[row * self.width + col]
    }

    /// 1 if the cell at (row, col) is alive, else 0.
    pub open spec fn live_indicator(self, row: int, col: int) -> int {
        if self.cell_at(row, col) == Cell::Alive {
            1
        } else {
            0
        }
    }

    /// How many of the 8 Moore neighbors of (row, col) are alive, with
    /// toroidal wraparound: rows wrap modulo the height and columns wrap
    /// modulo the width, so non-square grids wrap correctly on both axes.
    pub open spec fn neighbor_count(self, row: int, col: int) -> int {
        let h = self.height as int;
        let w = self.width as int;
        self.live_indicator(wrap_dec(row, h), col)
            + self.live_indicator(wrap_inc(row, h), col)
            + self.live_indicator(row, wrap_dec(col, w))
            + self.live_indicator(row, wrap_inc(col, w))
            + self.live_indicator(wrap_dec(row, h), wrap_dec(col, w))
            + self.live_indicator(wrap_inc(row, h), wrap_dec(col, w))
            + self.live_indicator(wrap_dec(row, h), wrap_inc(col, w))
            + self.live_indicator(wrap_inc(row, h), wrap_inc(col, w))
    }

    /// A fresh universe with the given positive dimensions, each cell
    /// independently Alive with probability 1/4: one draw from four
    /// equally likely values per cell, exactly one of which means Alive.
    /// Which cells come up alive is up to the random source, so only the
    /// shape is promised; `from_draws` pins down the mapping from draws
    /// to cells for every possible sequence of draws.
    pub fn new(width: u32, height: u32) -> (universe: Universe)
        requires
            1 <= width,
            1 <= height,
            width * height <= u32::MAX,
        ensures
            universe.well_formed(),
            universe.width == width,
            universe.height == height,
    {
        let capacity = width * height;
        let mut draws: Vec<u32> = Vec::new();
        let mut k: u32 = 0;
        while k < capacity
            invariant
                draws.len() == k,
                k <= capacity,
            decreases capacity - k,
        {
            draws.push(random_draw());
            k = k + 1;
        }
        Universe::from_draws(width, height, &draws)
    }

    /// The universe whose cells are read off a row-major sequence of
    /// draws, one per position: a draw of exactly 1 makes the cell Alive
    /// and any other value leaves it Dead.
    pub fn from_draws(width: u32, height: u32, draws: &Vec<u32>) -> (universe: Universe)
        requires
            1 <= width,
            1 <= height,
            width * height <= u32::MAX,
            draws.len() == width * height,
        ensures
            universe.well_formed(),
            universe.width == width,
            universe.height == height,
            forall|i: int|
                0 <= i < draws.len() ==> (#[trigger] universe.cells[i] == Cell::Alive <==> draws[i]
                    == 1),
    {
        let mut cells: Vec<Cell> = Vec::new();
        let n = draws.len();
        let mut k: usize = 0;
        while k < n
            invariant
                n == draws.len(),
                k <= n,
                cells.len() == k,
                forall|i: int|
                    0 <= i < k ==> (#[trigger] cells[i] == Cell::Alive <==> draws[i] == 1),
            decreases n - k,
        {
            match draws[k] {
                1 => cells.push(Cell::Alive),
                _ => cells.push(Cell::Dead),
            };
            k = k + 1;
        }
        Universe { width, height, cells }
    }

    /// Maps a 2-D coordinate to its 1-D storage position. Coordinates must
    /// already be in range: this performs no wrapping of its own.
    pub fn get_index(&self, row: u32, col: u32) -> (idx: usize)
        requires
            self.well_formed(),
            row < self.height,
            col < self.width,
        ensures
            idx == row * self.width + col,
            idx < self.cells.len(),
    {
        proof {
            lemma_row_major_bound(row as int, col as int, self.height as int, self.width as int);
        }
        (row * self.width + col) as usize
    }

    /// The cell at (row, col), so callers never compute raw indices.
    pub fn get(&self, row: u32, col: u32) -> (cell: Cell)
        requires
            self.well_formed(),
            row < self.height,
            col < self.width,
        ensures
            cell == self.cell_at(row as int, col as int),
    {
        let idx = self.get_index(row, col);
        self.cells[idx]
    }

    /// Overwrites the cell at (row, col), leaving every other cell and
    /// both dimensions as they were.
    pub fn set(&mut self, row: u32, col: u32, value: Cell)
        requires
            old(self).well_formed(),
            row < old(self).height,
            col < old(self).width,
        ensures
            final(self).well_formed(),
            final(self).width == old(self).width,
            final(self).height == old(self).height,
            final(self).cells@ == old(self).cells@.update(
                row as int * old(self).width + col as int,
                value,
            ),
            final(self).cell_at(row as int, col as int) == value,
            forall|r: int, c: int|
                old(self).in_bounds(r, c) && (r != row as int || c != col as int)
                    ==> #[trigger] final(self).cell_at(r, c) == old(self).cell_at(r, c),
    {
        let idx = self.get_index(row, col);
        self.cells[idx] = value;
        proof {
            assert forall|r: int, c: int|
                old(self).in_bounds(r, c) && (r != row as int || c != col as int)
                    implies #[trigger] self.cell_at(r, c) == old(self).cell_at(r, c) by {
                lemma_row_major_inverse(r, c, self.width as int);
                lemma_row_major_inverse(row as int, col as int, self.width as int);
                lemma_row_major_bound(r, c, self.height as int, self.width as int);
            }
        }
    }

    /// One live-neighbor count per cell, in the same row-major order as
    /// the cells themselves. Pure: the grid is not touched.
    pub fn live_neighbor_counts(&self) -> (counts: Vec<u32>)
        requires
            self.well_formed(),
        ensures
            counts.len() == self.cells.len(),
            forall|i: int|
                0 <= i < counts.len() ==> #[trigger] counts[i] as int == self.neighbor_count(
                    i / self.width as int,
                    i % self.width as int,
                ),
    {
        let w = self.width;
        let h = self.height;
        let mut counts: Vec<u32> = Vec::new();
        let mut row: u32 = 0;
        while row < h
            invariant
                self.well_formed(),
                w == self.width,
                h == self.height,
                row <= h,
                counts.len() == row * w,
                forall|i: int|
                    0 <= i < counts.len() ==> #[trigger] counts[i] as int == self.neighbor_count(
                        i / w as int,
                        i % w as int,
                    ),
            decreases h - row,
        {
            let mut col: u32 = 0;
            while col < w
                invariant
                    self.well_formed(),
                    w == self.width,
                    h == self.height,
                    row < h,
                    col <= w,
                    counts.len() == row * w + col,
                    forall|i: int|
                        0 <= i < counts.len() ==> #[trigger] counts[i] as int
                            == self.neighbor_count(i / w as int, i % w as int),
                decreases w - col,
            {
                let count = self.count_live_neighbors(row, col);
                proof {
                    lemma_row_major_inverse(row as int, col as int, w as int);
                    lemma_row_major_bound(row as int, col as int, h as int, w as int);
                }
                counts.push(count);
                col = col + 1;
            }
            proof {
                assert((row + 1) * w == row * w + w) by (nonlinear_arith);
            }
            row = row + 1;
        }
        proof {
            assert(h * w == w * h) by (nonlinear_arith);
        }
        counts
    }

    /// The live-neighbor count of one cell, by the eight wrapped lookups.
    fn count_live_neighbors(&self, row: u32, col: u32) -> (count: u32)
        requires
            self.well_formed(),
            row < self.height,
            col < self.width,
        ensures
            count as int == self.neighbor_count(row as int, col as int),
            count <= 8,
    {
        let h = self.height;
        let w = self.width;
        let row_up = wrap_pred(row, h);
        let row_down = wrap_succ(row, h);
        let col_left = wrap_pred(col, w);
        let col_right = wrap_succ(col, w);
        let mut count: u32 = 0;
        if Cell::Alive == self.cells[self.get_index(row_up, col)] {
            count = count + 1;
        }
        if Cell::Alive == self.cells[self.get_index(row_down, col)] {
            count = count + 1;
        }
        if Cell::Alive == self.cells[self.get_index(row, col_left)] {
            count = count + 1;
        }
        if Cell::Alive == self.cells[self.get_index(row, col_right)] {
            count = count + 1;
        }
        if Cell::Alive == self.cells[self.get_index(row_up, col_left)] {
            count = count + 1;
        }
        if Cell::Alive == self.cells[self.get_index(row_down, col_left)] {
            count = count + 1;
        }
        if Cell::Alive == self.cells[self.get_index(row_up, col_right)] {
            count = count + 1;
        }
        if Cell::Alive == self.cells[self.get_index(row_down, col_right)] {
            count = count + 1;
        }
        count
    }

    /// Advances the grid one generation in place. The neighbor counts of
    /// the prior generation are computed in full before any cell changes,
    /// and the cell vector is replaced in one step, so no partly-updated
    /// grid is ever observable.
    pub fn evolve(&mut self)
        requires
            old(self).well_formed(),
        ensures
            final(self).well_formed(),
            evolved(*old(self), *final(self)),
    {
        let live_counts = self.live_neighbor_counts();
        let w = self.width;
        let h = self.height;
        let mut next: Vec<Cell> = Vec::new();
        let mut row: u32 = 0;
        while row < h
            invariant
                self.well_formed(),
                w == self.width,
                h == self.height,
                live_counts.len() == self.cells.len(),
                forall|i: int|
                    0 <= i < live_counts.len() ==> #[trigger] live_counts[i] as int
                        == self.neighbor_count(i / w as int, i % w as int),
                row <= h,
                next.len() == row * w,
                forall|i: int|
                    0 <= i < next.len() ==> #[trigger] next[i] == next_cell(
                        self.cell_at(i / w as int, i % w as int),
                        self.neighbor_count(i / w as int, i % w as int),
                    ),
            decreases h - row,
        {
            let mut col: u32 = 0;
            while col < w
                invariant
                    self.well_formed(),
                    w == self.width,
                    h == self.height,
                    live_counts.len() == self.cells.len(),
                    forall|i: int|
                        0 <= i < live_counts.len() ==> #[trigger] live_counts[i] as int
                            == self.neighbor_count(i / w as int, i % w as int),
                    row < h,
                    col <= w,
                    next.len() == row * w + col,
                    forall|i: int|
                        0 <= i < next.len() ==> #[trigger] next[i] == next_cell(
                            self.cell_at(i / w as int, i % w as int),
                            self.neighbor_count(i / w as int, i % w as int),
                        ),
                decreases w - col,
            {
                let idx = self.get_index(row, col);
                let count = live_counts[idx];
                let cell = self.cells[idx];
                let new_cell: Cell = match (cell, count) {
                    (Cell::Alive, n) if n < 2 => Cell::Dead,
                    (Cell::Alive, n) if n > 3 => Cell::Dead,
                    (Cell::Dead, 3) => Cell::Alive,
                    (otherwise, _) => otherwise,
                };
                proof {
                    lemma_row_major_inverse(row as int, col as int, w as int);
                }
                next.push(new_cell);
                col = col + 1;
            }
            proof {
                assert((row + 1) * w == row * w + w) by (nonlinear_arith);
            }
            row = row + 1;
        }
        proof {
            assert(h * w == w * h) by (nonlinear_arith);
        }
        self.cells = next;
        proof {
            assert forall|row: int, col: int| old(self).in_bounds(row, col) implies #[trigger] self
                .cell_at(row, col) == next_cell(
                old(self).cell_at(row, col),
                old(self).neighbor_count(row, col),
            ) by {
                lemma_row_major_bound(row, col, h as int, w as int);
                lemma_row_major_inverse(row, col, w as int);
            }
        }
    }
}

/// The wrapped predecessor on a cycle of length `m`, computed as the spec
/// side writes it: the modulus is pre-added so the difference stays
/// non-negative (widened to u64 so the sum cannot overflow).
fn wrap_pred(i: u32, m: u32) -> (r: u32)
    requires
        1 <= m,
        i < m,
    ensures
        r as int == wrap_dec(i as int, m as int),
        r < m,
{
    (((m as u64) + (i as u64) - 1) % (m as u64)) as u32
}

/// The wrapped successor on a cycle of length `m`.
fn wrap_succ(i: u32, m: u32) -> (r: u32)
    requires
        1 <= m,
        i < m,
    ensures
        r as int == wrap_inc(i as int, m as int),
        r < m,
{
    (((i as u64) + 1) % (m as u64)) as u32
}

/// A row-major position computed from in-range coordinates lies inside
/// the grid's cell vector.
pub proof fn lemma_row_major_bound(row: int, col: int, height: int, width: int)
    requires
        0 <= row < height,
        0 <= col < width,
    ensures
        0 <= row * width + col < height * width,
{
    assert(row * width + col < height * width) by (nonlinear_arith)
        requires
            0 <= row < height,
            0 <= col < width,
    {
    }
    assert(0 <= row * width) by (nonlinear_arith)
        requires
            0 <= row,
            0 <= width,
    {
    }
}

/// Dividing a row-major position by the width recovers the row, and the
/// remainder recovers the column.
pub proof fn lemma_row_major_inverse(row: int, col: int, width: int)
    requires
        0 <= row,
        0 <= col < width,
    ensures
        (row * width + col) / width == row,
        (row * width + col) % width == col,
{
    lemma_fundamental_div_mod_converse(row * width + col, width, row, col);
}

/// On a cycle of length `m` the wrapped coordinates are the plain
/// predecessor and successor except at the two ends, which wrap across.
pub proof fn lemma_wrap_values(i: int, m: int)
    requires
        0 <= i < m,
    ensures
        wrap_dec(i, m) == if i == 0 { m - 1 } else { i - 1 },
        wrap_inc(i, m) == if i == m - 1 { 0 } else { i + 1 },
{
    if i == 0 {
        lemma_small_mod((m - 1) as nat, m as nat);
    } else {
        lemma_fundamental_div_mod_converse(i + m - 1, m, 1, i - 1);
    }
    if i == m - 1 {
        lemma_fundamental_div_mod_converse(i + 1, m, 1, 0);
    } else {
        lemma_small_mod((i + 1) as nat, m as nat);
    }
}

} // verus!
