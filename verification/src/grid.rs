//! The grid: a fixed-size, row-major sequence of cell states, addressed by a
//! two-dimensional coordinate, together with the edge-clamped neighbour count.

use vstd::prelude::*;

verus! {

/// The state of a single cell. A cell has no identity beyond its position in
/// the grid; transitions build new values rather than mutating in place.
#[derive(Clone, Copy, Debug, PartialEq, Eq, Structural)]
pub enum CellState {
    Live,
    Dead,
}

/// The mathematical model of a grid: its dimensions and the row-major
/// sequence of cell states. Position `(x, y)` lives at index `y * width + x`.
#[verifier::ext_equal]
pub struct GridModel {
    pub width: int,
    pub height: int,
    pub cells: Seq<CellState>,
}

impl GridModel {
    /// A well-formed grid has positive dimensions and exactly
    /// `width * height` cells.
    pub open spec fn wf(self) -> bool {
        &&& self.width >= 1
        &&& self.height >= 1
        &&& self.cells.len() == self.width * self.height
    }

    /// The row-major index of position `(x, y)`.
    pub open spec fn index_of(self, x: int, y: int) -> int {
        y * self.width + x
    }

    pub open spec fn in_bounds(self, x: int, y: int) -> bool {
        0 <= x < self.width && 0 <= y < self.height
    }

    pub open spec fn state_at(self, x: int, y: int) -> CellState {
        self.cells[self.index_of(x, y)]
    }

    /// `(i, j)` is a candidate neighbour of `(x, y)`: an in-bounds position
    /// other than `(x, y)` itself within the 3x3 block centred at `(x, y)`.
    /// Out-of-bounds offsets are clamped away, never wrapped around.
    pub open spec fn is_neighbour(self, x: int, y: int, i: int, j: int) -> bool {
        &&& self.in_bounds(i, j)
        &&& x - 1 <= i <= x + 1
        &&& y - 1 <= j <= y + 1
        &&& !(i == x && j == y)
    }

    /// 1 if `(i, j)` is a live neighbour of `(x, y)`, 0 otherwise.
    pub open spec fn live_contrib(self, x: int, y: int, i: int, j: int) -> int {
        if self.is_neighbour(x, y, i, j) && self.state_at(i, j) == CellState::Live {
            1
        } else {
            0
        }
    }

    /// The live neighbours of `(x, y)` within one column of the scan block.
    pub open spec fn col_contrib(self, x: int, y: int, i: int) -> int {
        self.live_contrib(x, y, i, y - 1) + self.live_contrib(x, y, i, y) + self.live_contrib(
            x,
            y,
            i,
            y + 1,
        )
    }

    /// The number of live cells among the candidate neighbours of `(x, y)`.
    pub open spec fn neighbour_count(self, x: int, y: int) -> int {
        self.col_contrib(x, y, x - 1) + self.col_contrib(x, y, x) + self.col_contrib(x, y, x + 1)
    }

    /// 1 if `(i, j)` is a candidate neighbour of `(x, y)`, live or dead.
    pub open spec fn candidate_contrib(self, x: int, y: int, i: int, j: int) -> int {
        if self.is_neighbour(x, y, i, j) {
            1
        } else {
            0
        }
    }

    /// How many candidate neighbours `(x, y)` has: 8 in the interior, fewer
    /// on the clamped edges and corners.
    pub open spec fn candidate_count(self, x: int, y: int) -> int {
        self.candidate_contrib(x, y, x - 1, y - 1) + self.candidate_contrib(x, y, x, y - 1)
            + self.candidate_contrib(x, y, x + 1, y - 1) + self.candidate_contrib(x, y, x - 1, y)
            + self.candidate_contrib(x, y, x + 1, y) + self.candidate_contrib(x, y, x - 1, y + 1)
            + self.candidate_contrib(x, y, x, y + 1) + self.candidate_contrib(x, y, x + 1, y + 1)
    }

    /// Every cell of the grid is dead.
    pub open spec fn all_dead(self) -> bool {
        forall|k: int| 0 <= k < self.cells.len() ==> self.cells[k] == CellState::Dead
    }

    /// Live neighbours of `(x, y)` in column `i`, rows `y - 1` through `j`:
    /// the partial sums behind the row scan.
    pub open spec fn rows_up_to(self, x: int, y: int, i: int, j: int) -> int
        decreases j - y + 2,
    {
        if j < y - 1 {
            0
        } else {
            self.rows_up_to(x, y, i, j - 1) + self.live_contrib(x, y, i, j)
        }
    }

    /// Live neighbours of `(x, y)` in columns `x - 1` through `i`: the
    /// partial sums behind the column scan.
    pub open spec fn cols_up_to(self, x: int, y: int, i: int) -> int
        decreases i - x + 2,
    {
        if i < x - 1 {
            0
        } else {
            self.cols_up_to(x, y, i - 1) + self.col_contrib(x, y, i)
        }
    }
}

/// A full row scan of one column adds up to that column's contribution.
proof fn lemma_rows_full(g: GridModel, x: int, y: int, i: int)
    ensures
        g.rows_up_to(x, y, i, y + 1) == g.col_contrib(x, y, i),
{
    assert(g.rows_up_to(x, y, i, y - 2) == 0);
    assert(g.rows_up_to(x, y, i, y - 1) == g.live_contrib(x, y, i, y - 1));
    assert(g.rows_up_to(x, y, i, y) == g.live_contrib(x, y, i, y - 1) + g.live_contrib(
        x,
        y,
        i,
        y,
    ));
    assert(g.rows_up_to(x, y, i, y + 1) == g.live_contrib(x, y, i, y - 1) + g.live_contrib(
        x,
        y,
        i,
        y,
    ) + g.live_contrib(x, y, i, y + 1));
}

/// A full column scan adds up to the neighbour count.
proof fn lemma_cols_full(g: GridModel, x: int, y: int)
    ensures
        g.cols_up_to(x, y, x + 1) == g.neighbour_count(x, y),
{
    assert(g.cols_up_to(x, y, x - 2) == 0);
    assert(g.cols_up_to(x, y, x - 1) == g.col_contrib(x, y, x - 1));
    assert(g.cols_up_to(x, y, x) == g.col_contrib(x, y, x - 1) + g.col_contrib(x, y, x));
    assert(g.cols_up_to(x, y, x + 1) == g.col_contrib(x, y, x - 1) + g.col_contrib(x, y, x)
        + g.col_contrib(x, y, x + 1));
}

/// Law: the neighbour count is a pure function of the neighbours' states.
/// Two grids of the same dimensions that agree on every candidate neighbour
/// of `(x, y)` — whatever they hold elsewhere, at `(x, y)` included — give
/// `(x, y)` the same neighbour count.
pub proof fn lemma_count_depends_on_neighbours_only(
    g1: GridModel,
    g2: GridModel,
    x: int,
    y: int,
)
    requires
        g1.width == g2.width,
        g1.height == g2.height,
        forall|i: int, j: int| #[trigger]
            g1.is_neighbour(x, y, i, j) ==> g1.state_at(i, j) == g2.state_at(i, j),
    ensures
        g1.neighbour_count(x, y) == g2.neighbour_count(x, y),
{
    assert forall|i: int, j: int| #[trigger] g1.live_contrib(x, y, i, j) == g2.live_contrib(
        x,
        y,
        i,
        j,
    ) by {
        if g1.is_neighbour(x, y, i, j) {
            assert(g1.state_at(i, j) == g2.state_at(i, j));
        }
    }
}

/// Law: the neighbour count is symmetric in its neighbours. Exchanging the
/// states of any two candidate neighbours of `(x, y)` — the grids agree
/// everywhere else — leaves the count of `(x, y)` unchanged.
pub proof fn lemma_count_symmetric_under_swap(
    g1: GridModel,
    g2: GridModel,
    x: int,
    y: int,
    pi: int,
    pj: int,
    qi: int,
    qj: int,
)
    requires
        g1.width == g2.width,
        g1.height == g2.height,
        g1.is_neighbour(x, y, pi, pj),
        g1.is_neighbour(x, y, qi, qj),
        g2.state_at(pi, pj) == g1.state_at(qi, qj),
        g2.state_at(qi, qj) == g1.state_at(pi, pj),
        forall|i: int, j: int|
            g1.in_bounds(i, j) && !(i == pi && j == pj) && !(i == qi && j == qj)
                ==> g1.state_at(i, j) == #[trigger] g2.state_at(i, j),
    ensures
        g1.neighbour_count(x, y) == g2.neighbour_count(x, y),
{
    assert forall|i: int, j: int|
        g1.is_neighbour(x, y, i, j) && !(i == pi && j == pj) && !(i == qi && j == qj) implies #[trigger] g2.live_contrib(
        x,
        y,
        i,
        j,
    ) == g1.live_contrib(x, y, i, j) by {
        assert(g1.state_at(i, j) == g2.state_at(i, j));
    }
    assert(g2.live_contrib(x, y, pi, pj) == g1.live_contrib(x, y, qi, qj));
    assert(g2.live_contrib(x, y, qi, qj) == g1.live_contrib(x, y, pi, pj));
    assert(g1.neighbour_count(x, y) == g2.neighbour_count(x, y));
}

/// Law: no live neighbour is counted outside the candidate positions, so
/// the neighbour count never exceeds the candidate count, and both lie
/// between 0 and 8.
pub proof fn lemma_count_within_candidates(g: GridModel, x: int, y: int)
    ensures
        0 <= g.neighbour_count(x, y) <= g.candidate_count(x, y),
        g.candidate_count(x, y) <= 8,
{
}

/// Law: on a grid at least 2 wide and 2 high, the corner cell `(0, 0)` has
/// exactly 3 candidate neighbours, so at most 3 can be live.
pub proof fn lemma_corner_candidates(g: GridModel)
    requires
        g.width >= 2,
        g.height >= 2,
    ensures
        g.candidate_count(0, 0) == 3,
        g.neighbour_count(0, 0) <= 3,
{
    lemma_count_within_candidates(g, 0, 0);
}

/// Law: a non-corner edge cell has exactly 5 candidate neighbours, so at
/// most 5 can be live.
pub proof fn lemma_edge_candidates(g: GridModel, x: int, y: int)
    requires
        g.width >= 2,
        g.height >= 2,
        g.in_bounds(x, y),
        x == 0 || x == g.width - 1 || y == 0 || y == g.height - 1,
        !((x == 0 || x == g.width - 1) && (y == 0 || y == g.height - 1)),
    ensures
        g.candidate_count(x, y) == 5,
        g.neighbour_count(x, y) <= 5,
{
    lemma_count_within_candidates(g, x, y);
    if x == 0 {
        assert(g.candidate_count(x, y) == 5);
    } else if x == g.width - 1 {
        assert(g.candidate_count(x, y) == 5);
    } else if y == 0 {
        assert(g.candidate_count(x, y) == 5);
    } else {
        assert(g.candidate_count(x, y) == 5);
    }
}

/// Law: an interior cell has exactly 8 candidate neighbours.
pub proof fn lemma_interior_candidates(g: GridModel, x: int, y: int)
    requires
        1 <= x < g.width - 1,
        1 <= y < g.height - 1,
    ensures
        g.candidate_count(x, y) == 8,
{
}

/// Row-major indices of in-bounds positions stay within the cell sequence.
pub proof fn lemma_index_in_range(x: int, y: int, width: int, height: int)
    by (nonlinear_arith)
    requires
        0 <= x < width,
        0 <= y < height,
    ensures
        0 <= y * width + x < width * height,
{
}

/// A finite two-dimensional field of cells, stored row-major.
pub struct Grid {
    width: usize,
    height: usize,
    cells: Vec<CellState>,
}

impl View for Grid {
    type V = GridModel;

    closed spec fn view(&self) -> GridModel {
        GridModel { width: self.width as int, height: self.height as int, cells: self.cells@ }
    }
}

impl Grid {
    pub open spec fn wf(&self) -> bool {
        self@.wf()
    }

    /// Builds a grid from a ready-made row-major sequence of cell states, as
    /// produced by a seeding function. Dimensions are caller-guaranteed.
    pub fn from_cells(width: usize, height: usize, cells: Vec<CellState>) -> (grid: Grid)
        requires
            width >= 1,
            height >= 1,
            cells@.len() == width * height,
        ensures
            grid.wf(),
            grid@.width == width,
            grid@.height == height,
            grid@.cells == cells@,
    {
        Grid { width, height, cells }
    }

    /// Builds a grid with every cell dead.
    pub fn new_dead(width: usize, height: usize) -> (grid: Grid)
        requires
            width >= 1,
            height >= 1,
            width * height <= usize::MAX,
        ensures
            grid.wf(),
            grid@.width == width,
            grid@.height == height,
            grid@.all_dead(),
    {
        let total: usize = width * height;
        let mut cells: Vec<CellState> = Vec::new();
        let mut k: usize = 0;
        while k < total
            invariant
                k <= total,
                cells@.len() == k,
                forall|m: int| 0 <= m < k ==> cells@[m] == CellState::Dead,
            decreases total - k,
        {
            cells.push(CellState::Dead);
            k = k + 1;
        }
        Grid { width, height, cells }
    }

    pub fn width(&self) -> (w: usize)
        ensures
            w == self@.width,
    {
        self.width
    }

    pub fn height(&self) -> (h: usize)
        ensures
            h == self@.height,
    {
        self.height
    }

    /// The number of cells, `width * height` for a well-formed grid.
    pub fn num_cells(&self) -> (n: usize)
        ensures
            n == self@.cells.len(),
    {
        self.cells.len()
    }

    /// The whole row-major sequence of cell states, for bulk iteration.
    pub fn cells(&self) -> (cells: &Vec<CellState>)
        ensures
            cells@ == self@.cells,
    {
        &self.cells
    }

    /// The state of the cell at `(x, y)`. Out-of-range access is a caller
    /// error, ruled out by the precondition.
    pub fn state_at(&self, x: usize, y: usize) -> (state: CellState)
        requires
            self.wf(),
            x < self@.width,
            y < self@.height,
        ensures
            state == self@.state_at(x as int, y as int),
    {
        proof {
            assert(self.cells.len() <= usize::MAX);
            lemma_index_in_range(x as int, y as int, self@.width, self@.height);
        }
        self.cells[y * self.width + x]
    }

    /// Scans the 3x3 block centred at `(x, y)`, clamped to the grid bounds,
    /// and counts the live cells other than `(x, y)` itself. Edge and corner
    /// cells simply scan a smaller block; nothing wraps around.
    #[verifier::loop_isolation(false)]
    #[verifier::rlimit(30)]
    pub fn count_live_neighbours(&self, x: usize, y: usize) -> (n: usize)
        requires
            self.wf(),
            x < self@.width,
            y < self@.height,
        ensures
            n == self@.neighbour_count(x as int, y as int),
            n <= 8,
    {
        let w: usize = self.width;
        let h: usize = self.height;
        let x_lo: usize = if x > 0 {
            x - 1
        } else {
            x
        };
        let x_hi: usize = if x + 1 < w {
            x + 1
        } else {
            x
        };
        let y_lo: usize = if y > 0 {
            y - 1
        } else {
            y
        };
        let y_hi: usize = if y + 1 < h {
            y + 1
        } else {
            y
        };
        let mut n: usize = 0;
        let mut i: usize = x_lo;
        proof {
            assert(self@.cols_up_to(x as int, y as int, x as int - 2) == 0);
            if x == 0 {
                assert(self@.col_contrib(x as int, y as int, x as int - 1) == 0);
                assert(self@.cols_up_to(x as int, y as int, x as int - 1) == 0);
            }
        }
        while i <= x_hi
            invariant
                x_lo <= i <= x_hi + 1,
                n as int == self@.cols_up_to(x as int, y as int, i as int - 1),
                n as int <= 3 * (i as int - x_lo as int),
            decreases x_hi + 1 - i,
        {
            let mut m: usize = 0;
            let mut j: usize = y_lo;
            proof {
                assert(self@.rows_up_to(x as int, y as int, i as int, y as int - 2) == 0);
                if y == 0 {
                    assert(self@.live_contrib(x as int, y as int, i as int, y as int - 1) == 0);
                    assert(self@.rows_up_to(x as int, y as int, i as int, y as int - 1) == 0);
                }
            }
            while j <= y_hi
                invariant
                    y_lo <= j <= y_hi + 1,
                    m as int == self@.rows_up_to(x as int, y as int, i as int, j as int - 1),
                    m as int <= 3 * (j as int - y_lo as int),
                decreases y_hi + 1 - j,
            {
                proof {
                    assert(self.cells.len() <= usize::MAX);
                    lemma_index_in_range(i as int, j as int, self@.width, self@.height);
                }
                let idx: usize = j * w + i;
                if !(i == x && j == y) && self.cells[idx] == CellState::Live {
                    m = m + 1;
                }
                proof {
                    assert(self@.rows_up_to(x as int, y as int, i as int, j as int)
                        == self@.rows_up_to(x as int, y as int, i as int, j as int - 1)
                        + self@.live_contrib(x as int, y as int, i as int, j as int));
                }
                j = j + 1;
            }
            proof {
                lemma_rows_full(self@, x as int, y as int, i as int);
                if y + 1 >= h {
                    assert(self@.live_contrib(x as int, y as int, i as int, y as int + 1) == 0);
                    assert(self@.rows_up_to(x as int, y as int, i as int, y as int + 1)
                        == self@.rows_up_to(x as int, y as int, i as int, y as int)
                        + self@.live_contrib(x as int, y as int, i as int, y as int + 1));
                }
                assert(m as int == self@.col_contrib(x as int, y as int, i as int));
                assert(self@.cols_up_to(x as int, y as int, i as int) == self@.cols_up_to(
                    x as int,
                    y as int,
                    i as int - 1,
                ) + self@.col_contrib(x as int, y as int, i as int));
            }
            n = n + m;
            i = i + 1;
        }
        proof {
            lemma_cols_full(self@, x as int, y as int);
            if x + 1 >= w {
                assert(self@.col_contrib(x as int, y as int, x as int + 1) == 0);
                assert(self@.cols_up_to(x as int, y as int, x as int + 1) == self@.cols_up_to(
                    x as int,
                    y as int,
                    x as int,
                ) + self@.col_contrib(x as int, y as int, x as int + 1));
            }
            assert(self@.live_contrib(x as int, y as int, x as int, y as int) == 0);
        }
        n
    }
}

} // verus!
