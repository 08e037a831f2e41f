use crate::grid::{position_of, lemma_index_round_trip, GridView};
use vstd::prelude::*;

verus! {

impl GridView {
    /// 1 where `(r2, c2)` lies in the grid and is not `(r, c)`, else 0.
    pub open spec fn candidate_term(self, r: int, c: int, r2: int, c2: int) -> int {
        if self.in_bounds(r2, c2) && !(r2 == r && c2 == c) { 1 } else { 0 }
    }

    /// How many of the eight cells around `(r, c)` lie in the grid.
    pub open spec fn candidates(self, r: int, c: int) -> int {
        self.candidate_term(r, c, r - 1, c - 1) + self.candidate_term(r, c, r - 1, c)
            + self.candidate_term(r, c, r - 1, c + 1) + self.candidate_term(r, c, r, c - 1)
            + self.candidate_term(r, c, r, c + 1) + self.candidate_term(r, c, r + 1, c - 1)
            + self.candidate_term(r, c, r + 1, c) + self.candidate_term(r, c, r + 1, c + 1)
    }

    /// Whether `(r, c)` is one of the four cells of the 2x2 block whose
    /// top-left cell is `(a, b)`.
    pub open spec fn in_block(a: int, b: int, r: int, c: int) -> bool {
        a <= r <= a + 1 && b <= c <= b + 1
    }
}

/// A cell has between zero and eight live neighbours, never more than it has
/// candidate neighbours in the grid; a corner cell has at most three
/// candidates and any other cell on an edge at most five.
pub proof fn lemma_neighbor_count_bounds(g: GridView, r: int, c: int)
    requires
        g.wf(),
        g.in_bounds(r, c),
    ensures
        0 <= g.live_neighbors(r, c) <= g.candidates(r, c) <= 8,
        (r == 0 || r == g.rows - 1) && (c == 0 || c == g.cols - 1) ==> g.candidates(r, c) <= 3,
        (r == 0 || r == g.rows - 1 || c == 0 || c == g.cols - 1) ==> g.candidates(r, c) <= 5,
{
}

/// A 2x2 block of live cells with every other cell dead is left unchanged
/// by a generation.
pub proof fn lemma_block_is_still_life(g: GridView, a: int, b: int)
    requires
        g.wf(),
        0 <= a,
        a + 1 < g.rows,
        0 <= b,
        b + 1 < g.cols,
        forall|r: int, c: int| g.in_bounds(r, c) ==> #[trigger] g.alive(r, c) == GridView::in_block(a, b, r, c),
    ensures
        g.next_generation() == g,
{
    assert forall|i: int| 0 <= i < g.cells.len() implies #[trigger] g.next_cells()[i] == g.cells[i] by {
        lemma_index_round_trip(g.rows as int, g.cols as int, i);
        let (r, c) = position_of(g.cols as int, i);
        assert(g.alive(r, c) == g.cells[i]);
    }
    assert(g.next_cells() =~= g.cells);
}

} // verus!
