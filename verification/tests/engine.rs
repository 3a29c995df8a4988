//! Behavior of the grid engine: construction, neighbor counting under
//! toroidal wraparound, and the generation transition.

use gameoflife::{Cell, Universe};

/// An all-Dead universe of the given dimensions, built from a draw
/// sequence that never hits the one value meaning Alive.
fn dead_universe(width: u32, height: u32) -> Universe {
    let draws = vec![0u32; (width * height) as usize];
    Universe::from_draws(width, height, &draws)
}

#[test]
fn create_yields_width_times_height_cells() {
    let u = Universe::new(7, 5);
    assert_eq!(u.width, 7);
    assert_eq!(u.height, 5);
    assert_eq!(u.cells.len(), 35);
}

#[test]
fn evolve_never_changes_size() {
    let mut u = Universe::new(6, 9);
    for _ in 0..4 {
        u.evolve();
        assert_eq!(u.width, 6);
        assert_eq!(u.height, 9);
        assert_eq!(u.cells.len(), 54);
    }
}

#[test]
fn from_draws_marks_exactly_ones_alive() {
    let draws = vec![1u32, 0, 2, 3];
    let u = Universe::from_draws(2, 2, &draws);
    assert_eq!(u.cells, vec![Cell::Alive, Cell::Dead, Cell::Dead, Cell::Dead]);
}

#[test]
fn get_index_is_row_major() {
    let u = dead_universe(4, 3);
    assert_eq!(u.get_index(0, 0), 0);
    assert_eq!(u.get_index(0, 3), 3);
    assert_eq!(u.get_index(1, 0), 4);
    assert_eq!(u.get_index(2, 3), 11);
}

#[test]
fn set_then_get_roundtrips() {
    let mut u = dead_universe(4, 4);
    assert_eq!(u.get(2, 1), Cell::Dead);
    u.set(2, 1, Cell::Alive);
    assert_eq!(u.get(2, 1), Cell::Alive);
    assert_eq!(u.get(1, 2), Cell::Dead);
}

#[test]
fn corner_cell_wraps_to_far_edges() {
    let mut u = dead_universe(3, 3);
    u.set(0, 0, Cell::Alive);
    let counts = u.live_neighbor_counts();
    // Diagonal wraparound neighbor.
    assert_eq!(counts[u.get_index(2, 2)], 1);
    // Plain horizontal neighbor.
    assert_eq!(counts[u.get_index(0, 1)], 1);
    // Vertical wraparound neighbor.
    assert_eq!(counts[u.get_index(2, 0)], 1);
    // On a 3x3 torus every other cell is adjacent to (0, 0).
    assert_eq!(counts[u.get_index(0, 0)], 0);
    for row in 0..3 {
        for col in 0..3 {
            if (row, col) != (0, 0) {
                assert_eq!(counts[u.get_index(row, col)], 1);
            }
        }
    }
}

#[test]
fn non_square_grid_wraps_each_axis_by_its_own_length() {
    let mut u = dead_universe(5, 2);
    u.set(0, 0, Cell::Alive);
    let counts = u.live_neighbor_counts();
    // The row above (0, 0) wraps to row 1; the column to its left wraps
    // to column 4. With only two rows, "up" and "down" coincide, so a
    // cell in the other row sees (0, 0) twice along the diagonals.
    assert_eq!(counts[u.get_index(0, 4)], 1);
    assert_eq!(counts[u.get_index(1, 4)], 2);
    assert_eq!(counts[u.get_index(1, 0)], 2);
}

#[test]
fn empty_grid_stays_empty() {
    let mut u = dead_universe(4, 6);
    for _ in 0..5 {
        u.evolve();
        assert!(u.cells.iter().all(|&c| c == Cell::Dead));
    }
}

#[test]
fn lone_cell_dies_of_underpopulation() {
    let mut u = dead_universe(5, 5);
    u.set(2, 2, Cell::Alive);
    u.evolve();
    assert!(u.cells.iter().all(|&c| c == Cell::Dead));
}

#[test]
fn crowded_cell_dies_of_overpopulation() {
    // A plus shape: the center has 4 live neighbors and must die.
    let mut u = dead_universe(7, 7);
    u.set(3, 3, Cell::Alive);
    u.set(2, 3, Cell::Alive);
    u.set(4, 3, Cell::Alive);
    u.set(3, 2, Cell::Alive);
    u.set(3, 4, Cell::Alive);
    u.evolve();
    assert_eq!(u.get(3, 3), Cell::Dead);
}

#[test]
fn block_is_unchanged_after_one_generation() {
    let mut u = dead_universe(8, 8);
    u.set(3, 3, Cell::Alive);
    u.set(3, 4, Cell::Alive);
    u.set(4, 3, Cell::Alive);
    u.set(4, 4, Cell::Alive);
    let before = u.cells.clone();
    u.evolve();
    assert_eq!(u.cells, before);
}

#[test]
fn blinker_oscillates_with_period_two() {
    let mut u = dead_universe(5, 5);
    u.set(2, 1, Cell::Alive);
    u.set(2, 2, Cell::Alive);
    u.set(2, 3, Cell::Alive);
    let horizontal = u.cells.clone();

    u.evolve();
    for row in 0..5 {
        for col in 0..5 {
            let expect = col == 2 && (1..=3).contains(&row);
            assert_eq!(u.get(row, col) == Cell::Alive, expect);
        }
    }

    u.evolve();
    assert_eq!(u.cells, horizontal);
}

#[test]
fn evolve_reads_only_the_prior_generation() {
    // A naive in-place pass over the horizontal blinker would first bring
    // (1, 2) to life, then count it for (2, 1), leaving (2, 1) alive with
    // two apparent neighbors. Double buffering sees only the prior
    // generation, where (2, 1) has a single neighbor, so it must die.
    let mut u = dead_universe(5, 5);
    u.set(2, 1, Cell::Alive);
    u.set(2, 2, Cell::Alive);
    u.set(2, 3, Cell::Alive);
    u.evolve();
    assert_eq!(u.get(2, 1), Cell::Dead);
    assert_eq!(u.get(2, 3), Cell::Dead);
    assert_eq!(u.get(2, 2), Cell::Alive);
}

#[test]
fn random_init_is_about_a_quarter_alive() {
    for _ in 0..3 {
        let u = Universe::new(100, 100);
        let alive = u.cells.iter().filter(|&&c| c == Cell::Alive).count();
        // Expect ~2500 of 10000; allow a generous +/- 0.05 tolerance.
        assert!((2000..=3000).contains(&alive), "alive fraction off: {alive}");
    }
}
