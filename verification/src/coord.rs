//! A 2-D coordinate on the grid.

use vstd::prelude::*;

verus! {

/// A grid position: `y` is the row, `x` is the column.
#[derive(Clone, Copy, Debug, PartialEq, Eq, Structural)]
pub struct Coord {
    pub x: usize,
    pub y: usize,
}

impl Coord {
    /// The origin coordinate.
    pub fn new() -> (r: Coord)
        ensures
            r.x == 0,
            r.y == 0,
    {
        Coord { x: 0, y: 0 }
    }

    /// A coordinate at the given column `x` and row `y`.
    pub fn from_point(x: usize, y: usize) -> (r: Coord)
        ensures
            r.x == x,
            r.y == y,
    {
        Coord { x, y }
    }
}

} // verus!
