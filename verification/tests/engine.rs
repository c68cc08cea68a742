use game_of_life::driver::Driver;
use game_of_life::grid::CellState;
use game_of_life::grid::Grid;
use game_of_life::stepper::next_cell_state;
use game_of_life::stepper::step;

/// Builds a `width x height` grid whose cells are dead except at the given
/// `(x, y)` positions.
fn grid_with_live(width: usize, height: usize, live: &[(usize, usize)]) -> Grid {
    let mut cells: Vec<CellState> = Vec::new();
    for y in 0..height {
        for x in 0..width {
            if live.contains(&(x, y)) {
                cells.push(CellState::Live);
            } else {
                cells.push(CellState::Dead);
            }
        }
    }
    Grid::from_cells(width, height, cells)
}

fn live_positions(grid: &Grid) -> Vec<(usize, usize)> {
    let mut live: Vec<(usize, usize)> = Vec::new();
    for y in 0..grid.height() {
        for x in 0..grid.width() {
            if grid.state_at(x, y) == CellState::Live {
                live.push((x, y));
            }
        }
    }
    live
}

#[test]
fn step_preserves_dimensions() {
    let grid = grid_with_live(4, 3, &[(0, 0), (2, 1), (3, 2)]);
    let next = step(&grid);
    assert_eq!(next.width(), 4);
    assert_eq!(next.height(), 3);
    assert_eq!(next.num_cells(), grid.num_cells());
}

#[test]
fn state_at_reads_row_major() {
    let cells = vec![
        CellState::Live,
        CellState::Dead,
        CellState::Dead,
        CellState::Live,
        CellState::Live,
        CellState::Dead,
    ];
    let grid = Grid::from_cells(3, 2, cells);
    assert_eq!(grid.state_at(0, 0), CellState::Live);
    assert_eq!(grid.state_at(1, 0), CellState::Dead);
    assert_eq!(grid.state_at(2, 0), CellState::Dead);
    assert_eq!(grid.state_at(0, 1), CellState::Live);
    assert_eq!(grid.state_at(1, 1), CellState::Live);
    assert_eq!(grid.state_at(2, 1), CellState::Dead);
}

#[test]
fn new_dead_grid_is_all_dead() {
    let grid = Grid::new_dead(5, 4);
    assert_eq!(grid.width(), 5);
    assert_eq!(grid.height(), 4);
    assert_eq!(grid.num_cells(), 20);
    assert!(grid.cells().iter().all(|c| *c == CellState::Dead));
}

#[test]
fn corner_edge_interior_counts_on_full_grid() {
    // On a fully live 3x3 grid the neighbour count equals the number of
    // candidate neighbours: 3 at a corner, 5 on a non-corner edge, 8 in the
    // interior.
    let all: Vec<(usize, usize)> =
        (0..3).flat_map(|y| (0..3).map(move |x| (x, y))).collect();
    let grid = grid_with_live(3, 3, &all);
    assert_eq!(grid.count_live_neighbours(0, 0), 3);
    assert_eq!(grid.count_live_neighbours(2, 0), 3);
    assert_eq!(grid.count_live_neighbours(0, 2), 3);
    assert_eq!(grid.count_live_neighbours(2, 2), 3);
    assert_eq!(grid.count_live_neighbours(1, 0), 5);
    assert_eq!(grid.count_live_neighbours(0, 1), 5);
    assert_eq!(grid.count_live_neighbours(2, 1), 5);
    assert_eq!(grid.count_live_neighbours(1, 2), 5);
    assert_eq!(grid.count_live_neighbours(1, 1), 8);
}

#[test]
fn count_excludes_the_cell_itself() {
    let grid = grid_with_live(3, 3, &[(1, 1)]);
    assert_eq!(grid.count_live_neighbours(1, 1), 0);
    assert_eq!(grid.count_live_neighbours(0, 0), 1);
    assert_eq!(grid.count_live_neighbours(2, 2), 1);
}

#[test]
fn single_cell_grid_has_no_neighbours() {
    let grid = grid_with_live(1, 1, &[(0, 0)]);
    assert_eq!(grid.count_live_neighbours(0, 0), 0);
    let next = step(&grid);
    assert_eq!(next.state_at(0, 0), CellState::Dead);
}

#[test]
fn next_cell_state_follows_condensed_rule() {
    for n in 0..=8usize {
        let from_live = next_cell_state(CellState::Live, n);
        let from_dead = next_cell_state(CellState::Dead, n);
        if n == 2 || n == 3 {
            assert_eq!(from_live, CellState::Live);
        } else {
            assert_eq!(from_live, CellState::Dead);
        }
        if n == 3 {
            assert_eq!(from_dead, CellState::Live);
        } else {
            assert_eq!(from_dead, CellState::Dead);
        }
    }
}

#[test]
fn dead_grid_stays_dead() {
    let grid = Grid::new_dead(3, 3);
    let next = step(&grid);
    assert!(next.cells().iter().all(|c| *c == CellState::Dead));
}

#[test]
fn dead_grid_is_a_stable_fixed_point() {
    let grid = Grid::new_dead(4, 4);
    let once = step(&grid);
    let twice = step(&once);
    assert_eq!(once.cells(), grid.cells());
    assert_eq!(twice.cells(), grid.cells());
    assert_eq!(once.width(), 4);
    assert_eq!(twice.height(), 4);
}

#[test]
fn l_tromino_steps_to_block() {
    // 3x3 grid, all dead except the L at (1,0), (1,1), (0,1). The centre
    // keeps 2 live neighbours and survives; the corner (0,0) sees the live
    // cells at (1,0), (0,1) and (1,1) through the clamped scan and is born.
    let grid = grid_with_live(3, 3, &[(1, 0), (1, 1), (0, 1)]);
    let next = step(&grid);
    assert_eq!(live_positions(&next), vec![(0, 0), (1, 0), (0, 1), (1, 1)]);
}

#[test]
fn block_is_still_life() {
    let grid = grid_with_live(3, 3, &[(0, 0), (1, 0), (0, 1), (1, 1)]);
    let next = step(&grid);
    assert_eq!(next.cells(), grid.cells());
}

#[test]
fn blinker_oscillates_with_period_two() {
    let horizontal = grid_with_live(5, 5, &[(1, 2), (2, 2), (3, 2)]);
    let next = step(&horizontal);
    assert_eq!(live_positions(&next), vec![(2, 1), (2, 2), (2, 3)]);
    let back = step(&next);
    assert_eq!(back.cells(), horizontal.cells());
}

#[test]
fn time_gating_triggers_exactly_two_advances() {
    // With step interval T, the callback timestamps 0, T-1, T, 2T-1, 2T must
    // advance the simulation exactly twice: at T and at 2T.
    let t: u64 = 100;
    let grid = grid_with_live(3, 3, &[(1, 0), (1, 1), (0, 1)]);
    let mut driver = Driver::new(grid, t);
    let mut advances: usize = 0;
    for timestamp in [0, t - 1, t, 2 * t - 1, 2 * t] {
        if driver.on_frame(timestamp) {
            advances += 1;
        }
    }
    assert_eq!(advances, 2);
    assert_eq!(driver.last_step_time(), 2 * t);
    // Two generations: the L-tromino becomes a block, which is stable.
    assert_eq!(
        live_positions(driver.grid()),
        vec![(0, 0), (1, 0), (0, 1), (1, 1)]
    );
}

#[test]
fn callback_before_the_interval_changes_nothing() {
    let grid = grid_with_live(3, 3, &[(1, 1)]);
    let mut driver = Driver::new(grid, 100);
    assert_eq!(driver.last_step_time(), 0);
    assert_eq!(driver.step_interval(), 100);
    assert!(!driver.on_frame(99));
    assert_eq!(driver.last_step_time(), 0);
    assert_eq!(live_positions(driver.grid()), vec![(1, 1)]);
}

#[test]
fn accepted_step_resets_the_clock() {
    let grid = Grid::new_dead(2, 2);
    let mut driver = Driver::new(grid, 10);
    assert!(driver.on_frame(25));
    assert_eq!(driver.last_step_time(), 25);
    assert!(!driver.on_frame(34));
    assert!(driver.on_frame(35));
    assert_eq!(driver.last_step_time(), 35);
}
