use crate::border_offsets::BorderOffsets;
use crate::error::NineSliceError;
use crate::geometry::{PositionU, Size};
use crate::rect::Rect;
use vstd::prelude::*;

verus! {

/// Border offsets of a nine-sliced sprite, each a pixel count from its own side.
#[derive(Copy, Clone, Eq, PartialEq, Debug, Structural)]
pub struct NineSlices {
    pub left: usize,
    pub top: usize,
    pub right: usize,
    pub bottom: usize,
}

/// The rectangle at `(x, y)` of `width x height`.
pub open spec fn rect_at(x: int, y: int, width: int, height: int) -> Rect {
    Rect {
        position: PositionU { x: x as usize, y: y as usize },
        size: Size { width: width as usize, height: height as usize },
    }
}

impl NineSlices {
    /// Every offset is positive and opposite offsets leave at least one pixel between them.
    pub open spec fn valid_for(self, size: Size) -> bool {
        &&& self.top > 0
        &&& self.left > 0
        &&& self.bottom > 0
        &&& self.right > 0
        &&& self.top + self.bottom < size.height
        &&& self.left + self.right < size.width
    }

    pub fn into_internal(self, size: Size) -> (r: Result<NineSlicesInternal, NineSliceError>)
        ensures
            self.valid_for(size) ==> (r matches Ok(s) && s.offsets() == self && s.bitmap_size() == size),
            !self.valid_for(size) ==> r == Err::<NineSlicesInternal, NineSliceError>(
                NineSliceError::InvalidSlices(
                    BorderOffsets {
                        left: self.left,
                        top: self.top,
                        right: self.right,
                        bottom: self.bottom,
                    },
                ),
            ),
    {
        if self.is_valid(&size) {
            Ok(
                NineSlicesInternal {
                    left: self.left,
                    top: self.top,
                    right: self.right,
                    bottom: self.bottom,
                    size,
                },
            )
        } else {
            Err(
                NineSliceError::InvalidSlices(
                    BorderOffsets {
                        left: self.left,
                        top: self.top,
                        right: self.right,
                        bottom: self.bottom,
                    },
                ),
            )
        }
    }

    /// Check whether we can use these borders:
    ///
    /// - There must be at least some padding.
    /// - The borders must be within the area.
    /// - The borders can't cross each other.
    pub fn is_valid(&self, size: &Size) -> (r: bool)
        ensures
            r == self.valid_for(*size),
    {
        self.top > 0 && self.left > 0 && self.bottom > 0 && self.right > 0 && self.bottom
            < size.height && self.top < size.height - self.bottom && self.right < size.width
            && self.left < size.width - self.right
    }
}

/// Nine slices of a bitmap of `size`, cut by valid offsets.
pub struct NineSlicesInternal {
    left: usize,
    top: usize,
    right: usize,
    bottom: usize,
    pub(crate) size: Size,
}

impl NineSlicesInternal {
    #[verifier::type_invariant]
    spec fn cut_by_valid_offsets(self) -> bool {
        self.offsets().valid_for(self.size)
    }

    /// The size of the sliced bitmap.
    pub closed spec fn bitmap_size(self) -> Size {
        self.size
    }

    /// The offsets the slices are cut by.
    pub closed spec fn offsets(self) -> NineSlices {
        NineSlices { left: self.left, top: self.top, right: self.right, bottom: self.bottom }
    }

    pub fn inner(&self) -> (r: Rect)
        ensures
            r == rect_at(
                self.offsets().left as int,
                self.offsets().top as int,
                self.bitmap_size().width - (self.offsets().left + self.offsets().right),
                self.bitmap_size().height - (self.offsets().top + self.offsets().bottom),
            ),
    {
        proof {
            use_type_invariant(self);
        }
        Rect {
            position: PositionU { x: self.left, y: self.top },
            size: Size {
                width: self.size.width - (self.left + self.right),
                height: self.size.height - (self.top + self.bottom),
            },
        }
    }

    pub fn top_left(&self) -> (r: Rect)
        ensures
            r == rect_at(0, 0, self.offsets().left as int, self.offsets().top as int),
    {
        Rect {
            position: PositionU { x: 0, y: 0 },
            size: Size { width: self.left, height: self.top },
        }
    }

    pub fn top(&self) -> (r: Rect)
        ensures
            r == rect_at(
                self.offsets().left as int,
                0,
                self.bitmap_size().width - (self.offsets().left + self.offsets().right),
                self.offsets().top as int,
            ),
    {
        proof {
            use_type_invariant(self);
        }
        Rect {
            position: PositionU { x: self.left, y: 0 },
            size: Size { width: self.size.width - (self.left + self.right), height: self.top },
        }
    }

    /// The top-right slice; it starts `left` pixels from the right edge.
    pub fn top_right(&self) -> (r: Rect)
        ensures
            r == rect_at(
                self.bitmap_size().width - self.offsets().left,
                0,
                self.offsets().right as int,
                self.offsets().top as int,
            ),
    {
        proof {
            use_type_invariant(self);
        }
        Rect {
            position: PositionU { x: self.size.width - self.left, y: 0 },
            size: Size { width: self.right, height: self.top },
        }
    }

    pub fn right(&self) -> (r: Rect)
        ensures
            r == rect_at(
                self.bitmap_size().width - self.offsets().right,
                self.offsets().top as int,
                self.offsets().right as int,
                self.bitmap_size().height - (self.offsets().top + self.offsets().bottom),
            ),
    {
        proof {
            use_type_invariant(self);
        }
        Rect {
            position: PositionU { x: self.size.width - self.right, y: self.top },
            size: Size { width: self.right, height: self.size.height - (self.top + self.bottom) },
        }
    }

    pub fn bottom_right(&self) -> (r: Rect)
        ensures
            r == rect_at(
                self.bitmap_size().width - self.offsets().right,
                self.bitmap_size().height - self.offsets().bottom,
                self.offsets().right as int,
                self.offsets().bottom as int,
            ),
    {
        proof {
            use_type_invariant(self);
        }
        Rect {
            position: PositionU {
                x: self.size.width - self.right,
                y: self.size.height - self.bottom,
            },
            size: Size { width: self.right, height: self.bottom },
        }
    }

    pub fn bottom(&self) -> (r: Rect)
        ensures
            r == rect_at(
                self.offsets().left as int,
                self.bitmap_size().height - self.offsets().bottom,
                self.bitmap_size().width - (self.offsets().left + self.offsets().right),
                self.offsets().bottom as int,
            ),
    {
        proof {
            use_type_invariant(self);
        }
        Rect {
            position: PositionU { x: self.left, y: self.size.height - self.bottom },
            size: Size { width: self.size.width - (self.left + self.right), height: self.bottom },
        }
    }

    pub fn bottom_left(&self) -> (r: Rect)
        ensures
            r == rect_at(
                0,
                self.bitmap_size().height - self.offsets().bottom,
                self.offsets().left as int,
                self.offsets().bottom as int,
            ),
    {
        proof {
            use_type_invariant(self);
        }
        Rect {
            position: PositionU { x: 0, y: self.size.height - self.bottom },
            size: Size { width: self.left, height: self.bottom },
        }
    }

    pub fn left(&self) -> (r: Rect)
        ensures
            r == rect_at(
                0,
                self.offsets().top as int,
                self.offsets().left as int,
                self.bitmap_size().height - (self.offsets().top + self.offsets().bottom),
            ),
    {
        proof {
            use_type_invariant(self);
        }
        Rect {
            position: PositionU { x: 0, y: self.top },
            size: Size { width: self.left, height: self.size.height - (self.top + self.bottom) },
        }
    }
}

} // verus!
