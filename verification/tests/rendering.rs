//! Behavior of the textual projection of a grid.

use gameoflife::{Cell, Universe};

fn dead_universe(width: u32, height: u32) -> Universe {
    let draws = vec![0u32; (width * height) as usize];
    Universe::from_draws(width, height, &draws)
}

#[test]
fn render_with_lays_out_rows_of_glyphs() {
    let mut u = dead_universe(2, 2);
    u.set(0, 1, Cell::Alive);
    let text = u.render_with(". ", "# ");
    assert_eq!(text, ". # \n. . \n");
}

#[test]
fn render_with_uses_the_given_glyphs() {
    let mut u = dead_universe(3, 1);
    u.set(0, 0, Cell::Alive);
    u.set(0, 2, Cell::Alive);
    assert_eq!(u.render_with("o", "x"), "xox\n");
    assert_eq!(u.render_with("_", "*"), "*_*\n");
}

#[test]
fn render_with_does_not_advance_the_grid() {
    let mut u = dead_universe(4, 4);
    u.set(1, 1, Cell::Alive);
    let before = u.cells.clone();
    let _ = u.render_with(". ", "# ");
    assert_eq!(u.cells, before);
}

#[test]
fn render_emits_one_line_break_per_row() {
    // The colorized glyphs depend on the terminal environment, but any
    // styling is free of line breaks: exactly one per row either way.
    let u = Universe::new(6, 4);
    let text = u.render();
    assert_eq!(text.chars().filter(|&c| c == '\n').count(), 4);
}
