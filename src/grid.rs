use rand::Rng;
use vstd::prelude::*;

verus! {

/// rand's seedable generator, carried through the library unopened.
#[verifier::external_type_specification]
#[verifier::external_body]
pub struct ExStdRng(rand::rngs::StdRng);

/// Relies on rand's `Rng::gen_ratio`: true with chance `numerator / denominator`;
/// its Bernoulli sampler never yields true for a zero numerator and always
/// yields true when the numerator equals the denominator. It panics on a
/// zero denominator or a numerator above it, which `requires` leaves out.
#[verifier::external_body]
fn get_random_cell_status(rng: &mut rand::rngs::StdRng, numerator: u32, denominator: u32) -> (r: bool)
    requires
        0 < denominator,
        numerator <= denominator,
    ensures
        numerator == 0 ==> !r,
        numerator == denominator ==> r,
{
    rng.gen_ratio(numerator, denominator)
}

/// A (row, column) pair.
pub type Pos = (usize, usize);

/// The flat sequence of cell states, row by row.
pub type Cells = Vec<bool>;

/// What can go wrong when a grid is built or read.
#[derive(Debug, Clone, Copy, PartialEq, Eq, Structural)]
pub enum GridError {
    /// A grid with no rows or no columns.
    InvalidDimensions,
    /// A position outside the grid.
    IndexOutOfRange,
}

/// The mathematical picture of a grid: its cells row by row and its size.
pub struct GridView {
    pub cells: Seq<bool>,
    pub rows: nat,
    pub cols: nat,
}

/// The linear index of the cell at row `r`, column `c`.
pub open spec fn index_of(cols: int, r: int, c: int) -> int {
    r * cols + c
}

/// The (row, column) pair of the cell at linear index `idx`.
pub open spec fn position_of(cols: int, idx: int) -> (int, int) {
    (idx / cols, idx % cols)
}

impl GridView {
    /// Both dimensions are positive and there is one cell per row and column.
    pub open spec fn wf(self) -> bool {
        &&& self.rows > 0
        &&& self.cols > 0
        &&& self.cells.len() == self.rows * self.cols
    }

    /// Whether `(r, c)` names a cell of the grid.
    pub open spec fn in_bounds(self, r: int, c: int) -> bool {
        0 <= r < self.rows && 0 <= c < self.cols
    }

    /// The state of the cell at row `r`, column `c`.
    pub open spec fn alive(self, r: int, c: int) -> bool {
        self.cells[index_of(self.cols as int, r, c)]
    }

    /// 1 where `(r2, c2)` is a live cell of the grid other than `(r, c)`, else 0.
    pub open spec fn neighbor_term(self, r: int, c: int, r2: int, c2: int) -> int {
        if self.in_bounds(r2, c2) && !(r2 == r && c2 == c) && self.alive(r2, c2) {
            1
        } else {
            0
        }
    }

    /// How many of the eight cells around `(r, c)` are inside the grid and alive.
    pub open spec fn live_neighbors(self, r: int, c: int) -> int {
        self.neighbor_term(r, c, r - 1, c - 1) + self.neighbor_term(r, c, r - 1, c)
            + self.neighbor_term(r, c, r - 1, c + 1) + self.neighbor_term(r, c, r, c - 1)
            + self.neighbor_term(r, c, r, c + 1) + self.neighbor_term(r, c, r + 1, c - 1)
            + self.neighbor_term(r, c, r + 1, c) + self.neighbor_term(r, c, r + 1, c + 1)
    }

    /// Life's rule: a cell lives on with exactly two or three live
    /// neighbours, and a dead cell comes alive with exactly three.
    pub open spec fn lives_next(self, r: int, c: int) -> bool {
        let n = self.live_neighbors(r, c);
        n == 3 || (self.alive(r, c) && n == 2)
    }

    /// The cells of the next generation, each computed from this one alone.
    pub open spec fn next_cells(self) -> Seq<bool> {
        Seq::new(
            self.cells.len(),
            |i: int| self.lives_next(position_of(self.cols as int, i).0, position_of(self.cols as int, i).1),
        )
    }

    /// The next generation: same dimensions, every cell advanced by the rule.
    pub open spec fn next_generation(self) -> GridView {
        GridView { cells: self.next_cells(), rows: self.rows, cols: self.cols }
    }

    /// The neighbour terms of `(r, c)` in row `r2`, over columns `lo` up to `hi` (exclusive).
    pub open spec fn row_count(self, r: int, c: int, r2: int, lo: int, hi: int) -> int
        decreases hi - lo,
    {
        if hi <= lo {
            0
        } else {
            self.row_count(r, c, r2, lo, hi - 1) + self.neighbor_term(r, c, r2, hi - 1)
        }
    }

    /// The neighbour terms of `(r, c)` over rows `rlo..rhi` and columns `clo..chi`.
    pub open spec fn window_count(self, r: int, c: int, rlo: int, rhi: int, clo: int, chi: int) -> int
        decreases rhi - rlo,
    {
        if rhi <= rlo {
            0
        } else {
            self.window_count(r, c, rlo, rhi - 1, clo, chi) + self.row_count(r, c, rhi - 1, clo, chi)
        }
    }
}

/// The lowest index of a window of radius one around `x`, clamped at zero.
pub open spec fn clamp_low(x: int) -> int {
    if x == 0 { 0 } else { x - 1 }
}

/// The highest index of a window of radius one around `x`, clamped at `n - 1`.
pub open spec fn clamp_high(x: int, n: int) -> int {
    if x + 1 < n - 1 { x + 1 } else { n - 1 }
}

/// Summing over the clamped window gives the count of live neighbours.
pub proof fn lemma_window_is_live_neighbors(g: GridView, r: int, c: int)
    requires
        g.wf(),
        g.in_bounds(r, c),
    ensures
        g.window_count(r, c, clamp_low(r), clamp_high(r, g.rows as int) + 1, clamp_low(c),
            clamp_high(c, g.cols as int) + 1) == g.live_neighbors(r, c),
{
    let clo = clamp_low(c);
    let chi = clamp_high(c, g.cols as int) + 1;
    assert forall|r2: int| #[trigger] g.row_count(r, c, r2, clo, chi) == g.neighbor_term(r, c, r2, c - 1)
        + g.neighbor_term(r, c, r2, c) + g.neighbor_term(r, c, r2, c + 1) by {
        reveal_with_fuel(GridView::row_count, 4);
    }
    reveal_with_fuel(GridView::window_count, 4);
}

/// A grid of cells, each alive or dead, with fixed dimensions.
#[derive(Debug)]
pub struct Grid {
    cells: Cells,
    rows: usize,
    cols: usize,
}

impl View for Grid {
    type V = GridView;

    closed spec fn view(&self) -> GridView {
        GridView { cells: self.cells@, rows: self.rows as nat, cols: self.cols as nat }
    }
}

/// The cell at row `r`, column `c` lies before the end of a grid of that size.
pub proof fn lemma_index_in_range(rows: int, cols: int, r: int, c: int)
    requires
        0 <= r < rows,
        0 <= c < cols,
    ensures
        0 <= index_of(cols, r, c) < rows * cols,
{
    assert(r * cols <= (rows - 1) * cols) by (nonlinear_arith)
        requires
            r <= rows - 1,
            0 <= cols,
    ;
    assert((rows - 1) * cols + cols == rows * cols) by (nonlinear_arith);
    assert(0 <= r * cols) by (nonlinear_arith)
        requires
            0 <= r,
            0 <= cols,
    ;
}

/// Every linear index of a grid maps to an in-bounds position, and back to
/// the same index.
pub proof fn lemma_index_round_trip(rows: int, cols: int, idx: int)
    requires
        rows > 0,
        cols > 0,
        0 <= idx < rows * cols,
    ensures
        0 <= position_of(cols, idx).0 < rows,
        0 <= position_of(cols, idx).1 < cols,
        index_of(cols, position_of(cols, idx).0, position_of(cols, idx).1) == idx,
{
    let q = idx / cols;
    let m = idx % cols;
    vstd::arithmetic::div_mod::lemma_fundamental_div_mod(idx, cols);
    assert(0 <= m < cols);
    assert(idx == q * cols + m) by (nonlinear_arith)
        requires
            idx == cols * q + m,
    ;
    assert(0 <= q < rows) by (nonlinear_arith)
        requires
            idx == q * cols + m,
            0 <= m < cols,
            0 <= idx < rows * cols,
            cols > 0,
    ;
}

impl Grid {
    #[verifier::type_invariant]
    spec fn inv(self) -> bool {
        &&& self@.wf()
        &&& self.rows * self.cols <= usize::MAX
    }

    /// An all-dead grid of `rows` by `cols`; no rows or no columns is an error.
    pub fn new(rows: usize, cols: usize) -> (r: Result<Grid, GridError>)
        requires
            rows * cols <= usize::MAX,
        ensures
            (rows == 0 || cols == 0) ==> r == Err::<Grid, GridError>(GridError::InvalidDimensions),
            (rows > 0 && cols > 0) ==> r is Ok,
            r is Ok ==> {
                let g = r->Ok_0;
                &&& g@.wf()
                &&& g@.rows == rows
                &&& g@.cols == cols
                &&& g@.cells == Seq::new((rows * cols) as nat, |i: int| false)
            },
    {
        if rows == 0 || cols == 0 {
            return Err(GridError::InvalidDimensions);
        }
        let n: usize = rows * cols;
        let mut cells: Cells = Vec::new();
        let mut i: usize = 0;
        while i < n
            invariant
                i <= n,
                cells@ == Seq::new(i as nat, |j: int| false),
            decreases n - i,
        {
            cells.push(false);
            i = i + 1;
        }
        Ok(Grid { cells, rows, cols })
    }

    /// The (row, column) pair of linear index `idx`.
    pub fn idx_to_pos(&self, idx: &usize) -> (r: Pos)
        ensures
            (r.0 as int, r.1 as int) == position_of(self@.cols as int, *idx as int),
    {
        proof {
            use_type_invariant(self);
        }
        (*idx / self.cols, *idx % self.cols)
    }

    /// The linear index of an in-bounds position.
    pub fn pos_to_idx(&self, pos: &Pos) -> (r: usize)
        requires
            self@.in_bounds(pos.0 as int, pos.1 as int),
        ensures
            r as int == index_of(self@.cols as int, pos.0 as int, pos.1 as int),
            r < self@.cells.len(),
    {
        proof {
            use_type_invariant(self);
            lemma_index_in_range(self.rows as int, self.cols as int, pos.0 as int, pos.1 as int);
        }
        let (r, c) = *pos;
        r * self.cols + c
    }

    /// The number of rows.
    pub fn rows(&self) -> (r: usize)
        ensures
            r == self@.rows,
    {
        self.rows
    }

    /// The number of columns.
    pub fn cols(&self) -> (r: usize)
        ensures
            r == self@.cols,
    {
        self.cols
    }

    /// The cells, row by row.
    pub fn cells(&self) -> (r: &Cells)
        ensures
            r@ == self@.cells,
    {
        &self.cells
    }

    /// Whether the cell at an in-bounds position is alive.
    pub fn is_alive(&self, pos: &Pos) -> (r: bool)
        requires
            self@.in_bounds(pos.0 as int, pos.1 as int),
        ensures
            r == self@.alive(pos.0 as int, pos.1 as int),
    {
        let idx: usize = self.pos_to_idx(pos);
        self.cells[idx]
    }

    /// Whether the cell at linear index `idx` is alive in the next generation.
    pub fn should_live(&self, idx: usize) -> (r: bool)
        requires
            idx < self@.cells.len(),
        ensures
            r == self@.lives_next(
                position_of(self@.cols as int, idx as int).0,
                position_of(self@.cols as int, idx as int).1,
            ),
    {
        proof {
            use_type_invariant(self);
            lemma_index_round_trip(self.rows as int, self.cols as int, idx as int);
        }
        let pos: Pos = self.idx_to_pos(&idx);
        let live_neighbors: usize = self.count_live_neighbors(&pos);
        live_neighbors == 3 || (self.is_alive(&pos) && live_neighbors == 2)
    }

    /// The cells of the next generation; `self` is only read, so every
    /// neighbour count sees the current generation.
    pub fn next_generation(&self) -> (r: Cells)
        ensures
            r@ == self@.next_cells(),
    {
        let mut new_cells: Cells = Vec::new();
        let n: usize = self.cells.len();
        for idx in 0..n
            invariant
                n == self@.cells.len(),
                new_cells@ == self@.next_cells().take(idx as int),
        {
            new_cells.push(self.should_live(idx));
            assert(new_cells@ =~= self@.next_cells().take(idx + 1));
        }
        assert(new_cells@ =~= self@.next_cells());
        new_cells
    }

    /// A grid of the same dimensions holding `new_cells`.
    pub fn update(&self, new_cells: Cells) -> (r: Grid)
        requires
            new_cells@.len() == self@.cells.len(),
        ensures
            r@ == (GridView { cells: new_cells@, rows: self@.rows, cols: self@.cols }),
            r@.wf(),
    {
        proof {
            use_type_invariant(self);
        }
        Grid { cells: new_cells, rows: self.rows, cols: self.cols }
    }

    /// The grid one generation on.
    pub fn tick(&self) -> (r: Grid)
        ensures
            r@ == self@.next_generation(),
            r@.wf(),
    {
        self.update(self.next_generation())
    }

    /// A grid of the same dimensions whose cells are each drawn from `rng`,
    /// alive with chance `numerator / denominator`.
    pub fn randomize(&self, rng: &mut rand::rngs::StdRng, numerator: u32, denominator: u32) -> (r: Grid)
        requires
            0 < denominator,
            numerator <= denominator,
        ensures
            r@.wf(),
            r@.rows == self@.rows,
            r@.cols == self@.cols,
            r@.cells.len() == self@.cells.len(),
            numerator == 0 ==> r@.cells == Seq::new(self@.cells.len(), |i: int| false),
            numerator == denominator ==> r@.cells == Seq::new(self@.cells.len(), |i: int| true),
    {
        let mut cells: Cells = Vec::new();
        let n: usize = self.cells.len();
        for i in 0..n
            invariant
                n == self@.cells.len(),
                0 < denominator,
                numerator <= denominator,
                cells@.len() == i,
                numerator == 0 ==> cells@ == Seq::new(i as nat, |j: int| false),
                numerator == denominator ==> cells@ == Seq::new(i as nat, |j: int| true),
        {
            let b: bool = get_random_cell_status(rng, numerator, denominator);
            cells.push(b);
            assert(numerator == 0 ==> cells@ =~= Seq::new((i + 1) as nat, |j: int| false));
            assert(numerator == denominator ==> cells@ =~= Seq::new((i + 1) as nat, |j: int| true));
        }
        self.update(cells)
    }

    /// Whether the cell at `pos` is alive, or `IndexOutOfRange` where `pos`
    /// lies outside the grid.
    pub fn try_is_alive(&self, pos: &Pos) -> (r: Result<bool, GridError>)
        ensures
            self@.in_bounds(pos.0 as int, pos.1 as int) ==> r == Ok::<bool, GridError>(
                self@.alive(pos.0 as int, pos.1 as int),
            ),
            !self@.in_bounds(pos.0 as int, pos.1 as int) ==> r == Err::<bool, GridError>(
                GridError::IndexOutOfRange,
            ),
    {
        if pos.0 < self.rows && pos.1 < self.cols {
            Ok(self.is_alive(pos))
        } else {
            Err(GridError::IndexOutOfRange)
        }
    }

    /// How many of the up to eight cells around `pos` are alive; the window
    /// is clamped at the edges of the grid and does not wrap around.
    pub fn count_live_neighbors(&self, pos: &Pos) -> (r: usize)
        requires
            self@.in_bounds(pos.0 as int, pos.1 as int),
        ensures
            r as int == self@.live_neighbors(pos.0 as int, pos.1 as int),
    {
        proof {
            use_type_invariant(self);
        }
        let min_row: usize;
        if pos.0 == 0 {
            min_row = 0;
        } else {
            min_row = pos.0 - 1;
        }
        let min_col: usize;
        if pos.1 == 0 {
            min_col = 0;
        } else {
            min_col = pos.1 - 1;
        }
        let max_row: usize = if pos.0 + 1 < self.rows - 1 { pos.0 + 1 } else { self.rows - 1 };
        let max_col: usize = if pos.1 + 1 < self.cols - 1 { pos.1 + 1 } else { self.cols - 1 };
        let ghost v = self@;
        let ghost pr = pos.0 as int;
        let ghost pc = pos.1 as int;

        let mut count: usize = 0;
        let mut r: usize = min_row;
        while r <= max_row
            invariant
                v == self@,
                v.wf(),
                v.in_bounds(pr, pc),
                pr == pos.0,
                pc == pos.1,
                min_row <= r <= max_row + 1,
                max_row < self@.rows,
                max_col < self@.cols,
                min_row + 2 >= max_row,
                min_col + 2 >= max_col,
                min_col <= max_col,
                count as int == v.window_count(pr, pc, min_row as int, r as int, min_col as int,
                    max_col + 1),
                count <= 3 * (r - min_row),
            decreases max_row + 1 - r,
        {
            let mut c: usize = min_col;
            while c <= max_col
                invariant
                    v == self@,
                    v.wf(),
                    pr == pos.0,
                    pc == pos.1,
                    min_row <= r <= max_row,
                    min_col <= c <= max_col + 1,
                    max_row < self@.rows,
                    max_col < self@.cols,
                    min_row + 2 >= max_row,
                    min_col + 2 >= max_col,
                    count as int == v.window_count(pr, pc, min_row as int, r as int, min_col as int,
                        max_col + 1) + v.row_count(pr, pc, r as int, min_col as int, c as int),
                    count <= 3 * (r - min_row) + (c - min_col),
                decreases max_col + 1 - c,
            {
                if !(r == pos.0 && c == pos.1) && self.is_alive(&(r, c)) {
                    count += 1;
                }
                c += 1;
            }
            r += 1;
        }
        proof {
            lemma_window_is_live_neighbors(v, pr, pc);
        }
        count
    }
}

} // verus!
