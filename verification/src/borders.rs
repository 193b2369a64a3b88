use crate::geometry::Size;
use vstd::prelude::*;

verus! {

/// Border offsets of a sliced sprite, each a pixel count from its own side.
pub struct SlicedBorders {
    pub top: usize,
    pub right: usize,
    pub bottom: usize,
    pub left: usize,
}

/// The offsets are usable on a bitmap of `size`: every offset is positive, and opposite offsets
/// leave at least one pixel between them.
pub open spec fn offsets_valid(top: usize, right: usize, bottom: usize, left: usize, size: Size) -> bool {
    &&& top > 0
    &&& right > 0
    &&& bottom > 0
    &&& left > 0
    &&& top + bottom < size.height
    &&& left + right < size.width
}

impl SlicedBorders {
    pub fn new_checked(top: usize, right: usize, bottom: usize, left: usize, size: Size) -> (r:
        Option<Self>)
        requires
            top > 0 && right > 0 && bottom > 0 && left > 0 ==> bottom <= size.height,
        ensures
            r is Some <==> offsets_valid(top, right, bottom, left, size),
            r matches Some(b) ==> b.top == top && b.right == right && b.bottom == bottom && b.left
                == left,
    {
        // There must be at least some padding.
        if top == 0 || right == 0 || bottom == 0 || left == 0 || top >= size.height - bottom || top
            >= size.height || right >= size.width || bottom >= size.height || left >= size.width
            - right {
            None
        } else {
            Some(Self { top, right, bottom, left })
        }
    }
}

} // verus!
