//! Headings on the integer lattice.

use vstd::prelude::*;

verus! {

/// A heading given by a lattice vector. Only where the vector points counts,
/// not how long it is: the court scales a heading to unit length before it
/// moves anything along it. The zero vector is "no heading" and moves nothing.
#[derive(Clone, Copy, Debug, PartialEq, Eq, Structural)]
pub struct Direction {
    pub x: i32,
    pub y: i32,
}

impl Direction {
    /// The heading with the given components.
    pub open spec fn at(x: int, y: int) -> Direction {
        Direction { x: x as i32, y: y as i32 }
    }

    pub fn new(x: i32, y: i32) -> (dir: Direction)
        ensures
            dir == (Direction { x, y }),
    {
        Direction { x, y }
    }

    pub fn zero() -> (dir: Direction)
        ensures
            dir == (Direction { x: 0, y: 0 }),
    {
        Direction { x: 0, y: 0 }
    }

    pub open spec fn is_zero_spec(&self) -> bool {
        self.x == 0 && self.y == 0
    }

    #[verifier::when_used_as_spec(is_zero_spec)]
    pub fn is_zero(&self) -> (res: bool)
        ensures
            res == self.is_zero_spec(),
    {
        self.x == 0 && self.y == 0
    }
}

} // verus!
