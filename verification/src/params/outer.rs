use crate::geometry::Size;
use crate::rect::Rect;
use vstd::prelude::*;

verus! {

/// The area that holds a sprite: a rectangle, or a whole bitmap of a size.
#[derive(Copy, Clone, Debug, PartialEq, Eq, Structural)]
pub enum OuterArea {
    Rect(Rect),
    Size(Size),
}

impl OuterArea {
    /// The size of the area.
    pub fn size(&self) -> (s: &Size)
        ensures
            *s == match *self {
                OuterArea::Rect(rect) => rect.size,
                OuterArea::Size(size) => size,
            },
    {
        match self {
            Self::Rect(rect) => &rect.size,
            Self::Size(size) => size,
        }
    }
}

} // verus!
