//! Proved behavior of the engine across whole generations: stasis of the
//! empty grid, wraparound adjacency at the edges, and the two classic
//! patterns — the still block and the period-2 blinker.

use crate::grid::{evolved, lemma_wrap_values, next_cell, Cell, Universe};
use vstd::arithmetic::div_mod::{lemma_fundamental_div_mod, lemma_mod_bound};
use vstd::prelude::*;

verus! {

/// Every cell of the grid is Dead.
pub open spec fn all_dead(grid: Universe) -> bool {
    forall|row: int, col: int|
        grid.in_bounds(row, col) ==> #[trigger] grid.cell_at(row, col) == Cell::Dead
}

/// An all-Dead grid stays all-Dead across one generation: every neighbor
/// count is 0, so no cell is born.
pub proof fn lemma_empty_grid_stasis(prev: Universe, next: Universe)
    requires
        prev.well_formed(),
        all_dead(prev),
        evolved(prev, next),
    ensures
        next.well_formed(),
        all_dead(next),
{
    let h = prev.height as int;
    let w = prev.width as int;
    assert forall|row: int, col: int| next.in_bounds(row, col) implies #[trigger] next.cell_at(
        row,
        col,
    ) == Cell::Dead by {
        lemma_mod_bound(row + h - 1, h);
        lemma_mod_bound(row + 1, h);
        lemma_mod_bound(col + w - 1, w);
        lemma_mod_bound(col + 1, w);
        assert(prev.neighbor_count(row, col) == 0);
        assert(next.cell_at(row, col) == next_cell(prev.cell_at(row, col), 0));
    }
}

/// An all-Dead grid stays all-Dead across any number of generations:
/// `generations` is any chain of grids in which each entry is the
/// evolution of the one before it.
pub proof fn lemma_empty_grid_stasis_forever(generations: Seq<Universe>)
    requires
        generations.len() >= 1,
        generations[0].well_formed(),
        all_dead(generations[0]),
        forall|i: int|
            0 <= i < generations.len() - 1 ==> #[trigger] evolved(
                generations[i],
                generations[i + 1],
            ),
    ensures
        generations.last().well_formed(),
        all_dead(generations.last()),
    decreases generations.len(),
{
    let n = generations.len() as int;
    if n >= 2 {
        let front = generations.subrange(0, n - 1);
        assert(forall|i: int|
            0 <= i < front.len() - 1 ==> #[trigger] evolved(front[i], front[i + 1]));
        lemma_empty_grid_stasis_forever(front);
        assert(front.last() == generations[n - 2]);
        assert(evolved(generations[n - 2], generations[n - 2 + 1]));
        lemma_empty_grid_stasis(generations[n - 2], generations[n - 1]);
    }
}

/// Exactly one cell of the grid is Alive, the one at (live_row, live_col).
pub open spec fn single_live(grid: Universe, live_row: int, live_col: int) -> bool {
    &&& grid.in_bounds(live_row, live_col)
    &&& forall|row: int, col: int|
        grid.in_bounds(row, col) ==> (#[trigger] grid.cell_at(row, col) == Cell::Alive <==> (row
            == live_row && col == live_col))
}

/// Toroidal adjacency at the edges: with a single live cell in the
/// (0, 0) corner, the far corner sees it as its diagonal wraparound
/// neighbor, the cell beside it sees it as a plain horizontal neighbor,
/// and the bottom-left cell sees it as its vertical wraparound neighbor —
/// each counting exactly 1.
pub proof fn lemma_corner_wraparound(grid: Universe)
    requires
        grid.well_formed(),
        grid.width >= 3,
        grid.height >= 3,
        single_live(grid, 0, 0),
    ensures
        grid.neighbor_count(grid.height - 1, grid.width - 1) == 1,
        grid.neighbor_count(0, 1) == 1,
        grid.neighbor_count(grid.height - 1, 0) == 1,
{
    let h = grid.height as int;
    let w = grid.width as int;
    lemma_wrap_values(h - 1, h);
    lemma_wrap_values(w - 1, w);
    lemma_wrap_values(0, h);
    lemma_wrap_values(0, w);
    lemma_wrap_values(1, w);
    assert(grid.neighbor_count(h - 1, w - 1) == 1);
    assert(grid.neighbor_count(0, 1) == 1);
    assert(grid.neighbor_count(h - 1, 0) == 1);
}

/// A row-major position splits into an in-range row and column.
proof fn lemma_index_split(i: int, w: int, h: int)
    requires
        0 < w,
        0 < h,
        0 <= i < h * w,
    ensures
        0 <= i / w < h,
        0 <= i % w < w,
        (i / w) * w + i % w == i,
{
    lemma_mod_bound(i, w);
    lemma_fundamental_div_mod(i, w);
    assert((i / w) * w == w * (i / w)) by (nonlinear_arith);
    assert(0 <= i / w < h) by (nonlinear_arith)
        requires
            i == w * (i / w) + i % w,
            0 <= i % w < w,
            0 <= i < h * w,
            0 < w,
            0 < h,
    {
    }
}

/// Two well-formed grids of the same dimensions whose cells agree at
/// every coordinate hold equal cell vectors.
pub proof fn lemma_cells_pointwise_eq(a: Universe, b: Universe)
    requires
        a.well_formed(),
        b.width == a.width,
        b.height == a.height,
        b.cells.len() == a.cells.len(),
        forall|row: int, col: int|
            a.in_bounds(row, col) ==> #[trigger] a.cell_at(row, col) == b.cell_at(row, col),
    ensures
        a.cells@ == b.cells@,
{
    let w = a.width as int;
    let h = a.height as int;
    assert forall|i: int| 0 <= i < a.cells.len() implies a.cells[i] == b.cells[i] by {
        assert(h * w == w * h) by (nonlinear_arith);
        lemma_index_split(i, w, h);
        let row = i / w;
        let col = i % w;
        assert(a.in_bounds(row, col));
        assert(a.cell_at(row, col) == a.cells[i]);
        assert(b.cell_at(row, col) == b.cells[i]);
    }
    assert(a.cells@ =~= b.cells@);
}

/// Exactly the four cells of the 2x2 block whose top-left corner is
/// (top, left) are Alive.
pub open spec fn block_only(grid: Universe, top: int, left: int) -> bool {
    forall|row: int, col: int|
        grid.in_bounds(row, col) ==> (#[trigger] grid.cell_at(row, col) == Cell::Alive <==> (top
            <= row < top + 2 && left <= col < left + 2))
}

/// A 2x2 block of live cells with at least two clear rows and columns on
/// every side is a still life: one generation leaves the grid unchanged.
/// Each block cell has exactly 3 live neighbors and survives; every dead
/// cell sees at most 2 and stays dead.
pub proof fn lemma_block_is_still(prev: Universe, next: Universe, top: int, left: int)
    requires
        prev.well_formed(),
        2 <= top,
        top + 2 <= prev.height - 2,
        2 <= left,
        left + 2 <= prev.width - 2,
        block_only(prev, top, left),
        evolved(prev, next),
    ensures
        next.well_formed(),
        block_only(next, top, left),
        next.cells@ == prev.cells@,
{
    let h = prev.height as int;
    let w = prev.width as int;
    assert forall|row: int, col: int| prev.in_bounds(row, col) implies #[trigger] next.cell_at(
        row,
        col,
    ) == prev.cell_at(row, col) by {
        lemma_wrap_values(row, h);
        lemma_wrap_values(col, w);
        assert(next.cell_at(row, col) == next_cell(
            prev.cell_at(row, col),
            prev.neighbor_count(row, col),
        ));
    }
    lemma_cells_pointwise_eq(prev, next);
}

/// Exactly the three cells of the horizontal line through (row0, col0)
/// are Alive: the cell itself and its left and right neighbors.
pub open spec fn horizontal_blinker(grid: Universe, row0: int, col0: int) -> bool {
    forall|row: int, col: int|
        grid.in_bounds(row, col) ==> (#[trigger] grid.cell_at(row, col) == Cell::Alive <==> (row
            == row0 && col0 - 1 <= col <= col0 + 1))
}

/// Exactly the three cells of the vertical line through (row0, col0) are
/// Alive: the cell itself and the cells above and below it.
pub open spec fn vertical_blinker(grid: Universe, row0: int, col0: int) -> bool {
    forall|row: int, col: int|
        grid.in_bounds(row, col) ==> (#[trigger] grid.cell_at(row, col) == Cell::Alive <==> (col
            == col0 && row0 - 1 <= row <= row0 + 1))
}

/// A horizontal blinker two cells clear of every edge turns vertical in
/// one generation: the line's ends die with 1 neighbor, its center
/// survives with 2, and the cells above and below the center are born
/// with 3.
pub proof fn lemma_blinker_turns_vertical(prev: Universe, next: Universe, row0: int, col0: int)
    requires
        prev.well_formed(),
        2 <= row0 <= prev.height - 3,
        2 <= col0 <= prev.width - 3,
        horizontal_blinker(prev, row0, col0),
        evolved(prev, next),
    ensures
        next.well_formed(),
        vertical_blinker(next, row0, col0),
{
    let h = prev.height as int;
    let w = prev.width as int;
    assert forall|row: int, col: int| next.in_bounds(row, col) implies (#[trigger] next.cell_at(
        row,
        col,
    ) == Cell::Alive <==> (col == col0 && row0 - 1 <= row <= row0 + 1)) by {
        lemma_wrap_values(row, h);
        lemma_wrap_values(col, w);
        assert(next.cell_at(row, col) == next_cell(
            prev.cell_at(row, col),
            prev.neighbor_count(row, col),
        ));
    }
}

/// A vertical blinker two cells clear of every edge turns horizontal in
/// one generation.
pub proof fn lemma_blinker_turns_horizontal(prev: Universe, next: Universe, row0: int, col0: int)
    requires
        prev.well_formed(),
        2 <= row0 <= prev.height - 3,
        2 <= col0 <= prev.width - 3,
        vertical_blinker(prev, row0, col0),
        evolved(prev, next),
    ensures
        next.well_formed(),
        horizontal_blinker(next, row0, col0),
{
    let h = prev.height as int;
    let w = prev.width as int;
    assert forall|row: int, col: int| next.in_bounds(row, col) implies (#[trigger] next.cell_at(
        row,
        col,
    ) == Cell::Alive <==> (row == row0 && col0 - 1 <= col <= col0 + 1)) by {
        lemma_wrap_values(row, h);
        lemma_wrap_values(col, w);
        assert(next.cell_at(row, col) == next_cell(
            prev.cell_at(row, col),
            prev.neighbor_count(row, col),
        ));
    }
}

/// The blinker is a period-2 oscillator: a horizontal line two cells
/// clear of every edge is vertical after one generation and exactly its
/// old self after two.
/// Two grids of the same dimensions that both hold exactly the
/// horizontal blinker through (row0, col0) are cell-for-cell equal.
proof fn lemma_horizontal_blinker_determined(a: Universe, b: Universe, row0: int, col0: int)
    requires
        a.well_formed(),
        b.width == a.width,
        b.height == a.height,
        b.cells.len() == a.cells.len(),
        horizontal_blinker(a, row0, col0),
        horizontal_blinker(b, row0, col0),
    ensures
        a.cells@ == b.cells@,
{
    assert forall|row: int, col: int| a.in_bounds(row, col) implies #[trigger] a.cell_at(row, col)
        == b.cell_at(row, col) by {
        assert(a.cell_at(row, col) == Cell::Alive <==> (row == row0 && col0 - 1 <= col <= col0
            + 1));
        assert(b.cell_at(row, col) == Cell::Alive <==> (row == row0 && col0 - 1 <= col <= col0
            + 1));
    }
    lemma_cells_pointwise_eq(a, b);
}

pub proof fn lemma_blinker_period_two(
    start: Universe,
    mid: Universe,
    end: Universe,
    row0: int,
    col0: int,
)
    requires
        start.well_formed(),
        2 <= row0 <= start.height - 3,
        2 <= col0 <= start.width - 3,
        horizontal_blinker(start, row0, col0),
        evolved(start, mid),
        evolved(mid, end),
    ensures
        vertical_blinker(mid, row0, col0),
        horizontal_blinker(end, row0, col0),
        end.cells@ == start.cells@,
{
    lemma_blinker_turns_vertical(start, mid, row0, col0);
    lemma_blinker_turns_horizontal(mid, end, row0, col0);
    lemma_horizontal_blinker_determined(start, end, row0, col0);
}

} // verus!
