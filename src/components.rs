use vstd::prelude::*;

verus! {

/// Index of one block within its piece (0 to 3).
#[derive(Debug, Clone, Copy, PartialEq, Eq, Structural)]
pub struct BlocPosition(pub usize);

/// Which sides of the falling piece touch a wall, the floor or a settled block.
#[derive(Debug, Clone, Copy, PartialEq, Eq, Structural)]
pub struct Blocked {
    pub left: bool,
    pub right: bool,
    pub bottom: bool,
}

/// A cell of the board grid: `x` grows to the right, `y` grows downward.
#[derive(Debug, Clone, Copy, PartialEq, Eq, Structural)]
pub struct GridPos {
    pub x: isize,
    pub y: isize,
}

} // verus!
