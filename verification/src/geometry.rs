use vstd::prelude::*;

verus! {

/// Rectangular bounds defined by a width and height.
#[derive(Copy, Clone, Debug, Default, PartialEq, Eq, Structural)]
pub struct Size {
    pub width: usize,
    pub height: usize,
}

/// An `(x, y)` pixel position.
#[derive(Copy, Clone, Debug, Default, PartialEq, Eq, Structural)]
pub struct PositionU {
    pub x: usize,
    pub y: usize,
}

/// A rectangle defined by a position and size.
#[derive(Copy, Clone, Debug, Default, PartialEq, Eq, Structural)]
pub struct RectU {
    pub position: PositionU,
    pub size: Size,
}

impl Size {
    pub fn new(width: usize, height: usize) -> (s: Self)
        ensures
            s.width == width,
            s.height == height,
    {
        Size { width, height }
    }
}

impl PositionU {
    pub fn new(x: usize, y: usize) -> (p: Self)
        ensures
            p.x == x,
            p.y == y,
    {
        PositionU { x, y }
    }
}

impl RectU {
    /// Whether the pixel `(x, y)` lies inside the rectangle.
    pub open spec fn contains(self, x: int, y: int) -> bool {
        &&& self.position.x <= x < self.position.x + self.size.width
        &&& self.position.y <= y < self.position.y + self.size.height
    }

    /// Whether the rectangle lies inside an area of size `size` placed at the origin.
    pub open spec fn within(self, size: Size) -> bool {
        &&& self.position.x + self.size.width <= size.width
        &&& self.position.y + self.size.height <= size.height
    }
}

/// The index of pixel `(x, y)` in a row-major buffer whose rows are `width` pixels long.
pub open spec fn index_of(x: int, y: int, width: int) -> int {
    x + y * width
}

} // verus!
