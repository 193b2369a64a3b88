use crate::geometry::Size;
use vstd::prelude::*;

verus! {

/// Border lines of a sliced sprite, as pixel coordinates: the top and bottom lines are rows,
/// the left and right lines are columns.
pub struct SlicedBorders {
    pub top: usize,
    pub right: usize,
    pub bottom: usize,
    pub left: usize,
}

/// The lines are usable on a bitmap of `size`: none is on the first row or column, the top line
/// is above the bottom line, the left line is left of the right line, and every line is inside.
pub open spec fn lines_valid(top: usize, right: usize, bottom: usize, left: usize, size: Size) -> bool {
    &&& top > 0
    &&& right > 0
    &&& bottom > 0
    &&& left > 0
    &&& top < bottom < size.height
    &&& left < right < size.width
}

impl SlicedBorders {
    pub fn new_checked(top: usize, right: usize, bottom: usize, left: usize, size: Size) -> (r:
        Option<Self>)
        ensures
            r is Some <==> lines_valid(top, right, bottom, left, size),
            r matches Some(b) ==> b.top == top && b.right == right && b.bottom == bottom && b.left
                == left,
    {
        // There must be at least some padding.
        if top == 0 || right == 0 || bottom == 0 || left == 0 || top >= bottom || top >= size.height
            || right >= size.width || bottom >= size.height || left >= right {
            None
        } else {
            Some(Self { top, right, bottom, left })
        }
    }
}

} // verus!
