use vstd::prelude::*;

verus! {

/// A signed 2D integer coordinate. Validity is grid-relative: the type
/// itself carries no bounds.
#[derive(Clone, Copy, PartialEq, Eq, Structural, Debug, Hash)]
pub struct Coord {
    pub x: i32,
    pub y: i32,
}

impl Coord {
    pub fn new(x: i32, y: i32) -> (c: Coord)
        ensures
            c.x == x,
            c.y == y,
    {
        Coord { x, y }
    }

    /// Squared Euclidean distance between two coordinates, as a
    /// mathematical integer (never negative, never overflows).
    pub open spec fn dist2(self, other: Coord) -> int {
        (self.x - other.x) * (self.x - other.x) + (self.y - other.y) * (self.y - other.y)
    }
}

} // verus!
