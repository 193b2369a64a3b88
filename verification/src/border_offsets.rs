use crate::error::NineSliceError;
use crate::geometry::Size;
use crate::nine_slices::NineSlices;
use vstd::prelude::*;

verus! {

/// Border offsets that define a 9-sliced sprite.
///
/// Each of these fields is an absolute pixel count from its respective side.
/// For example, if `left == 2`, the left boundary will be 2 pixels offset from the left side of the bitmap.
/// And, if `right == 2`, the right boundary will be 2 pixels offset from the right side of the bitmap.
///
/// Rules for offset values:
///
/// - Must be greater than 0
/// - Must be within the bounds of the bitmap
/// - Must not cross each other on the bitmap
#[derive(Copy, Clone, Eq, PartialEq, Debug, Structural)]
pub struct BorderOffsets {
    pub left: usize,
    pub top: usize,
    pub right: usize,
    pub bottom: usize,
}

impl BorderOffsets {
    /// The offsets are usable on a bitmap of `size`: every offset is positive,
    /// and opposite offsets leave at least one pixel between them.
    pub open spec fn valid_for(self, size: Size) -> bool {
        &&& self.left > 0
        &&& self.top > 0
        &&& self.right > 0
        &&& self.bottom > 0
        &&& self.left + self.right < size.width
        &&& self.top + self.bottom < size.height
    }

    /// Check if the offsets are valid and then convert into `NineSlices`.
    pub fn into_slices(self, size: Size) -> (r: Result<NineSlices, NineSliceError>)
        ensures
            self.valid_for(size) ==> r == Ok::<NineSlices, NineSliceError>(
                NineSlices::spec_new(self, size),
            ),
            !self.valid_for(size) ==> r == Err::<NineSlices, NineSliceError>(
                NineSliceError::InvalidSlices(self),
            ),
    {
        if self.is_valid(&size) {
            Ok(NineSlices::new(self, size))
        } else {
            Err(NineSliceError::InvalidSlices(self))
        }
    }

    /// Check whether we can use these offsets:
    ///
    /// - Every offset must be greater than 0.
    /// - The offsets must be within the bounds defined by `size`.
    /// - The offsets can't cross each other.
    pub fn is_valid(&self, size: &Size) -> (r: bool)
        ensures
            r == self.valid_for(*size),
    {
        self.top > 0 && self.left > 0 && self.bottom > 0 && self.right > 0 && self.bottom
            < size.height && self.right < size.width && self.top < size.height - self.bottom
            && self.left < size.width - self.right
    }
}

} // verus!
