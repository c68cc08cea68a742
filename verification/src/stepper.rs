//! The simulation stepper: a pure function from one grid to its successor,
//! applying the condensed Conway rule to every cell simultaneously. Every
//! neighbour count reads the prior generation only; the successor is a brand
//! new grid and the input is never mutated.

use vstd::prelude::*;

use crate::grid::lemma_index_in_range;
use crate::grid::CellState;
use crate::grid::Grid;
use crate::grid::GridModel;

verus! {

/// The condensed Conway transition rule: a live cell survives with two or
/// three live neighbours, a dead cell is born with exactly three.
pub open spec fn next_state(state: CellState, live_neighbours: int) -> CellState {
    match state {
        CellState::Live => if live_neighbours == 2 || live_neighbours == 3 {
            CellState::Live
        } else {
            CellState::Dead
        },
        CellState::Dead => if live_neighbours == 3 {
            CellState::Live
        } else {
            CellState::Dead
        },
    }
}

/// The successor of a grid model: same dimensions, every cell replaced by
/// the rule applied to its old state and its old neighbour count.
pub open spec fn step_model(g: GridModel) -> GridModel {
    GridModel {
        width: g.width,
        height: g.height,
        cells: Seq::new(
            g.cells.len(),
            |k: int| next_state(g.cells[k], g.neighbour_count(k % g.width, k / g.width)),
        ),
    }
}

/// Splitting a linear index back into coordinates lands in bounds and maps
/// back to the same index.
proof fn lemma_position_of_index(k: int, w: int, h: int)
    by (nonlinear_arith)
    requires
        w >= 1,
        h >= 1,
        0 <= k < w * h,
    ensures
        0 <= k % w < w,
        0 <= k / w < h,
        (k / w) * w + (k % w) == k,
{
}

/// Applies the rule to one cell, from its old state and its old live
/// neighbour count.
pub fn next_cell_state(state: CellState, live_neighbours: usize) -> (next: CellState)
    ensures
        next == next_state(state, live_neighbours as int),
{
    match state {
        CellState::Live => {
            if live_neighbours == 2 || live_neighbours == 3 {
                CellState::Live
            } else {
                CellState::Dead
            }
        },
        CellState::Dead => {
            if live_neighbours == 3 {
                CellState::Live
            } else {
                CellState::Dead
            }
        },
    }
}

/// Computes the next generation. The result has the same dimensions as the
/// input — the cell sequence keeps its length — and holds, at every position,
/// the rule applied to the input's state and neighbour count there.
#[verifier::loop_isolation(false)]
pub fn step(grid: &Grid) -> (next: Grid)
    requires
        grid.wf(),
    ensures
        next.wf(),
        next@ == step_model(grid@),
        next@.width == grid@.width,
        next@.height == grid@.height,
        next@.cells.len() == grid@.cells.len(),
{
    let w: usize = grid.width();
    let h: usize = grid.height();
    let total: usize = grid.num_cells();
    let mut cells: Vec<CellState> = Vec::new();
    let mut k: usize = 0;
    while k < total
        invariant
            k <= total,
            cells@.len() == k,
            forall|m: int| 0 <= m < k ==> cells@[m] == step_model(grid@).cells[m],
        decreases total - k,
    {
        proof {
            lemma_position_of_index(k as int, grid@.width, grid@.height);
        }
        let x: usize = k % w;
        let y: usize = k / w;
        let state: CellState = grid.state_at(x, y);
        let count: usize = grid.count_live_neighbours(x, y);
        proof {
            assert(grid@.index_of(x as int, y as int) == k);
        }
        cells.push(next_cell_state(state, count));
        k = k + 1;
    }
    let next: Grid = Grid::from_cells(w, h, cells);
    proof {
        assert(next@ =~= step_model(grid@));
    }
    next
}

/// In a fully dead grid every neighbour count is zero.
proof fn lemma_dead_count(g: GridModel, x: int, y: int)
    requires
        g.wf(),
        g.all_dead(),
    ensures
        g.neighbour_count(x, y) == 0,
{
    assert forall|i: int, j: int| #[trigger] g.live_contrib(x, y, i, j) == 0 by {
        if g.is_neighbour(x, y, i, j) {
            lemma_index_in_range(i, j, g.width, g.height);
            assert(g.cells[j * g.width + i] == CellState::Dead);
        }
    }
}

/// Law: a fully dead grid maps to a fully dead grid — the step makes no
/// spontaneous births — and, being a fixed point of the step, stepping it
/// twice yields the very same grid both times.
pub proof fn lemma_dead_grid_fixed(g: GridModel)
    requires
        g.wf(),
        g.all_dead(),
    ensures
        step_model(g) == g,
        step_model(g).all_dead(),
        step_model(step_model(g)) == g,
{
    assert forall|k: int| 0 <= k < g.cells.len() implies step_model(g).cells[k] == g.cells[k] by {
        lemma_dead_count(g, k % g.width, k / g.width);
    }
    assert(step_model(g).cells =~= g.cells);
    assert(step_model(g) =~= g);
}

} // verus!
