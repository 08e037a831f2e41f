use crate::grid::{Grid, GridError};
use vstd::prelude::*;

verus! {

/// The settings of a running simulation.
#[derive(Debug, Clone, Copy, PartialEq, Eq)]
pub struct Config {
    /// Rows of the grid.
    pub rows: usize,
    /// Columns of the grid.
    pub cols: usize,
    /// The chance that a cell starts alive is
    /// `density_numerator / density_denominator`.
    pub density_numerator: u32,
    pub density_denominator: u32,
    /// The pause between two generations, in milliseconds.
    pub frame_delay_ms: u64,
    /// The character drawn for a live cell.
    pub alive_glyph: char,
    /// The character drawn for a dead cell.
    pub dead_glyph: char,
}

impl Config {
    /// Whether the starting density is a chance between 0 and 1.
    pub open spec fn density_ok(self) -> bool {
        0 < self.density_denominator && self.density_numerator <= self.density_denominator
    }

    /// The first generation: a grid of the configured size whose cells are
    /// drawn from `rng` at the configured density.
    pub fn initial_grid(&self, rng: &mut rand::rngs::StdRng) -> (r: Result<Grid, GridError>)
        requires
            self.density_ok(),
            self.rows * self.cols <= usize::MAX,
        ensures
            (self.rows == 0 || self.cols == 0) ==> r == Err::<Grid, GridError>(
                GridError::InvalidDimensions,
            ),
            (self.rows > 0 && self.cols > 0) ==> r is Ok,
            r is Ok ==> {
                let g = r->Ok_0;
                &&& g@.wf()
                &&& g@.rows == self.rows
                &&& g@.cols == self.cols
                &&& self.density_numerator == 0 ==> g@.cells == Seq::new(g@.cells.len(), |i: int| false)
                &&& self.density_numerator == self.density_denominator ==> g@.cells == Seq::new(
                    g@.cells.len(),
                    |i: int| true,
                )
            },
    {
        let g: Grid = Grid::new(self.rows, self.cols)?;
        Ok(g.randomize(rng, self.density_numerator, self.density_denominator))
    }
}

impl Default for Config {
    /// A 25 by 50 grid, half of it alive at the start, 150 ms between
    /// generations, `O` for a live cell and a middle dot for a dead one.
    fn default() -> (r: Config)
        ensures
            r == (Config {
                rows: 25,
                cols: 50,
                density_numerator: 1,
                density_denominator: 2,
                frame_delay_ms: 150,
                alive_glyph: 'O',
                dead_glyph: '\u{00b7}',
            }),
    {
        Config {
            rows: 25,
            cols: 50,
            density_numerator: 1,
            density_denominator: 2,
            frame_delay_ms: 150,
            alive_glyph: 'O',
            dead_glyph: '\u{00b7}',
        }
    }
}

} // verus!
