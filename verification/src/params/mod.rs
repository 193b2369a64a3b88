pub mod outer;

pub use outer::OuterArea;

use crate::rect::Rect;
use vstd::prelude::*;

verus! {

/// What to cut out of a bitmap and how to scale it: the `inner` area of the `outer` area,
/// scaled horizontally and/or vertically by scales of type `S`, with a scaling method of type `M`.
pub struct Params<S, M> {
    pub outer: OuterArea,
    pub inner: Rect,
    pub horizontal: Option<S>,
    pub vertical: Option<S>,
    pub method: M,
}

/// `inner` lies strictly inside `outer`: for an outer rectangle, `inner` starts at or after the
/// rectangle's position and ends before the rectangle's width and height; for an outer size,
/// `inner` ends before the size.
pub open spec fn contains(outer: OuterArea, inner: Rect) -> bool {
    match outer {
        OuterArea::Rect(rect) => {
            &&& inner.position.x >= rect.position.x
            &&& inner.position.y >= rect.position.y
            &&& inner.position.x + inner.size.width < rect.size.width
            &&& inner.position.y + inner.size.height < rect.size.height
        },
        OuterArea::Size(size) => {
            &&& inner.position.x + inner.size.width < size.width
            &&& inner.position.y + inner.size.height < size.height
        },
    }
}

/// The containment check stays in `usize`: each sum it forms fits, as far as it gets formed.
pub open spec fn checkable(outer: OuterArea, inner: Rect) -> bool {
    let (x, y, w, h) = (
        inner.position.x as int,
        inner.position.y as int,
        inner.size.width as int,
        inner.size.height as int,
    );
    match outer {
        OuterArea::Rect(rect) => {
            &&& x >= rect.position.x && y >= rect.position.y ==> x + w <= usize::MAX
            &&& x >= rect.position.x && y >= rect.position.y && x + w < rect.size.width ==> y + h
                <= usize::MAX
        },
        OuterArea::Size(size) => {
            &&& x + w <= usize::MAX
            &&& x + w < size.width ==> y + h <= usize::MAX
        },
    }
}

impl<S, M> Params<S, M> {
    /// Parameters whose `inner` area lies inside `outer` and that scale at least one axis, or `None`.
    pub fn new_checked(
        outer: OuterArea,
        inner: Rect,
        horizontal: Option<S>,
        vertical: Option<S>,
        method: M,
    ) -> (r: Option<Self>)
        requires
            checkable(outer, inner),
        ensures
            r is Some <==> contains(outer, inner) && (horizontal is Some || vertical is Some),
            r matches Some(p) ==> p.outer == outer && p.inner == inner && p.horizontal
                == horizontal && p.vertical == vertical && p.method == method,
    {
        // Is `inner` contained by `outer`?
        if match &outer {
            OuterArea::Rect(rect) => {
                inner.position.x >= rect.position.x && inner.position.y >= rect.position.y
                    && inner.position.x + inner.size.width < rect.size.width && inner.position.y
                    + inner.size.height < rect.size.height
            },
            OuterArea::Size(size) => {
                inner.position.x + inner.size.width < size.width && inner.position.y
                    + inner.size.height < size.height
            },
        } {
            if horizontal.is_some() || vertical.is_some() {
                Some(Self { outer, inner, horizontal, vertical, method })
            } else {
                None
            }
        } else {
            None
        }
    }
}

} // verus!
