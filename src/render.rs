use crate::grid::{Grid, GridView};
use vstd::prelude::*;

verus! {

/// Relies on `String::push`, which appends one character to the end of the string.
pub assume_specification[ String::push ](s: &mut String, ch: char)
    ensures
        final(s)@ == old(s)@.push(ch),
;

/// The character drawn for a cell.
pub open spec fn glyph(alive: bool, alive_glyph: char, dead_glyph: char) -> char {
    if alive { alive_glyph } else { dead_glyph }
}

impl GridView {
    /// The first `c` characters of row `r`, left to right.
    pub open spec fn row_prefix_text(self, r: int, c: int, alive_glyph: char, dead_glyph: char) -> Seq<char> {
        Seq::new(c as nat, |j: int| glyph(self.alive(r, j), alive_glyph, dead_glyph))
    }

    /// Row `r` as text: one glyph per column, then a line break.
    pub open spec fn row_text(self, r: int, alive_glyph: char, dead_glyph: char) -> Seq<char> {
        self.row_prefix_text(r, self.cols as int, alive_glyph, dead_glyph).push('\n')
    }

    /// The first `k` rows as text, top to bottom.
    pub open spec fn text(self, k: int, alive_glyph: char, dead_glyph: char) -> Seq<char>
        decreases k,
    {
        if k <= 0 {
            Seq::empty()
        } else {
            self.text(k - 1, alive_glyph, dead_glyph) + self.row_text(k - 1, alive_glyph, dead_glyph)
        }
    }
}

impl Grid {
    /// The grid as text: each row top to bottom, one glyph per cell left to
    /// right, each row ended by a line break.
    pub fn render(&self, alive_glyph: char, dead_glyph: char) -> (r: String)
        ensures
            r@ == self@.text(self@.rows as int, alive_glyph, dead_glyph),
    {
        let ghost v = self@;
        let rows: usize = self.rows();
        let cols: usize = self.cols();
        let mut s: String = String::new();
        for r in 0..rows
            invariant
                v == self@,
                rows == v.rows,
                cols == v.cols,
                s@ == v.text(r as int, alive_glyph, dead_glyph),
        {
            for c in 0..cols
                invariant
                    v == self@,
                    rows == v.rows,
                    cols == v.cols,
                    r < rows,
                    s@ == v.text(r as int, alive_glyph, dead_glyph) + v.row_prefix_text(
                        r as int,
                        c as int,
                        alive_glyph,
                        dead_glyph,
                    ),
            {
                let g: char = if self.is_alive(&(r, c)) { alive_glyph } else { dead_glyph };
                s.push(g);
                assert(v.row_prefix_text(r as int, c + 1, alive_glyph, dead_glyph) =~= v.row_prefix_text(
                    r as int,
                    c as int,
                    alive_glyph,
                    dead_glyph,
                ).push(g));
            }
            s.push('\n');
        }
        s
    }
}

} // verus!
