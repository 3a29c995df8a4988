//! The read-only textual projection of a grid: one glyph per cell, rows
//! separated by line breaks, top to bottom. Which glyphs stand for Dead
//! and Alive is the caller's choice; `render` picks the colorized pair
//! the terminal display uses.

use crate::grid::{Cell, Universe};
use colored::Colorize;
use vstd::prelude::*;
use vstd::string::StringExecFns;

verus! {

/// The glyph that stands for one cell.
pub open spec fn glyph_of(cell: Cell, dead: Seq<char>, alive: Seq<char>) -> Seq<char> {
    if cell == Cell::Alive {
        alive
    } else {
        dead
    }
}

/// The glyphs of the first `n` cells of one row, left to right.
pub open spec fn row_prefix_text(
    grid: Universe,
    row: int,
    n: int,
    dead: Seq<char>,
    alive: Seq<char>,
) -> Seq<char>
    decreases n,
{
    if n <= 0 {
        Seq::empty()
    } else {
        row_prefix_text(grid, row, n - 1, dead, alive) + glyph_of(
            grid.cell_at(row, n - 1),
            dead,
            alive,
        )
    }
}

/// The first `n` rows of the grid, each rendered in full and followed by
/// a line break.
pub open spec fn rows_text(grid: Universe, n: int, dead: Seq<char>, alive: Seq<char>) -> Seq<char>
    decreases n,
{
    if n <= 0 {
        Seq::empty()
    } else {
        rows_text(grid, n - 1, dead, alive) + row_prefix_text(
            grid,
            n - 1,
            grid.width as int,
            dead,
            alive,
        ) + seq!['\n']
    }
}

/// The whole grid as text: every row in top-to-bottom order.
pub open spec fn render_text(grid: Universe, dead: Seq<char>, alive: Seq<char>) -> Seq<char> {
    rows_text(grid, grid.height as int, dead, alive)
}

/// Relies on colored::Colorize::black: the glyph for a dead cell, styled
/// for the terminal. What styling comes out depends on the terminal
/// environment, so nothing is promised of the text.
#[verifier::external_body]
fn dead_glyph() -> String {
    "○ ".black().to_string()
}

/// Relies on colored::Colorize::cyan: the glyph for a live cell, styled
/// for the terminal. What styling comes out depends on the terminal
/// environment, so nothing is promised of the text.
#[verifier::external_body]
fn alive_glyph() -> String {
    "● ".cyan().to_string()
}

impl Universe {
    /// The grid rendered with a caller-chosen glyph per cell state: a
    /// pure projection of the current cells, one glyph per cell in
    /// row-major order with a line break after every row.
    pub fn render_with(&self, dead: &str, alive: &str) -> (text: String)
        requires
            self.well_formed(),
        ensures
            text@ == render_text(*self, dead@, alive@),
    {
        let h = self.height;
        let w = self.width;
        let mut text = String::new();
        let mut row: u32 = 0;
        while row < h
            invariant
                self.well_formed(),
                w == self.width,
                h == self.height,
                row <= h,
                text@ == rows_text(*self, row as int, dead@, alive@),
            decreases h - row,
        {
            let mut col: u32 = 0;
            while col < w
                invariant
                    self.well_formed(),
                    w == self.width,
                    h == self.height,
                    row < h,
                    col <= w,
                    text@ == rows_text(*self, row as int, dead@, alive@) + row_prefix_text(
                        *self,
                        row as int,
                        col as int,
                        dead@,
                        alive@,
                    ),
                decreases w - col,
            {
                let idx = self.get_index(row, col);
                if self.cells[idx] == Cell::Alive {
                    text.append(alive);
                } else {
                    text.append(dead);
                }
                col = col + 1;
            }
            text.append("\n");
            proof {
                reveal_strlit("\n");
                assert("\n"@ =~= seq!['\n']);
            }
            row = row + 1;
        }
        text
    }

    /// The display text of the grid: `render_with` applied to the two
    /// colorized glyphs. The glyph pair depends on the terminal
    /// environment, so the text is only promised to be the rendering of
    /// this grid under some pair of glyphs.
    pub fn render(&self) -> (text: String)
        requires
            self.well_formed(),
        ensures
            exists|dead: Seq<char>, alive: Seq<char>| text@ == render_text(*self, dead, alive),
    {
        let dead = dead_glyph();
        let alive = alive_glyph();
        let text = self.render_with(dead.as_str(), alive.as_str());
        proof {
            assert(text@ == render_text(*self, dead@, alive@));
        }
        text
    }
}

} // verus!
