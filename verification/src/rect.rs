use crate::geometry::{PositionU, Size};
use vstd::prelude::*;

verus! {

/// A rectangle that defines a slice within a nine-sliced sprite.
#[derive(Copy, Clone, Debug, PartialEq, Eq, Structural)]
pub struct Rect {
    pub position: PositionU,
    pub size: Size,
}

} // verus!
