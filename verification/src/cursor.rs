//! The text cursor: a column/row position in the document.

use vstd::prelude::*;

verus! {

/// A document position: column `x` within line `y`.
#[derive(Clone, Copy, PartialEq, Eq, Structural, Debug)]
pub struct Cursor {
    pub x: usize,
    pub y: usize,
}

impl Cursor {
    /// The origin position: start of the first line.
    pub fn new() -> (c: Cursor)
        ensures
            c.x == 0,
            c.y == 0,
    {
        Cursor { x: 0, y: 0 }
    }

    pub fn get_position_as_tuple(&self) -> (r: (usize, usize))
        ensures
            r.0 == self.x,
            r.1 == self.y,
    {
        (self.x, self.y)
    }
}

} // verus!
