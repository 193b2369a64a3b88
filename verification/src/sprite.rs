use crate::bitmap::Bitmap;
use crate::geometry::Size;
use vstd::prelude::*;

verus! {

/// A bitmap and its size.
pub struct Sprite<P> {
    pub bitmap: Bitmap<P>,
    pub size: Size,
}

} // verus!
