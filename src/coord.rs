use vstd::prelude::*;

verus! {

/// A cell position on the lattice.
#[derive(Debug, Clone, Copy, PartialEq, Eq, Hash, Structural)]
pub struct Vec2Isize {
    pub x: isize,
    pub y: isize,
}

impl Vec2Isize {
    /// The coordinate as a pair of mathematical integers.
    pub open spec fn view(self) -> (int, int) {
        (self.x as int, self.y as int)
    }

    pub fn new(x: isize, y: isize) -> (r: Vec2Isize)
        ensures
            r.x == x,
            r.y == y,
    {
        Vec2Isize { x, y }
    }
}

} // verus!
