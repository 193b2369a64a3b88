use crate::border_offsets::BorderOffsets;
use crate::geometry::{PositionU, RectU, Size};
use vstd::prelude::*;

verus! {

/// Nine slices of a sprite.
#[derive(Copy, Clone, Debug, PartialEq, Eq, Structural)]
pub struct NineSlices {
    pub inner: RectU,
    pub left: RectU,
    pub top_left: RectU,
    pub top: RectU,
    pub top_right: RectU,
    pub right: RectU,
    pub bottom_right: RectU,
    pub bottom: RectU,
    pub bottom_left: RectU,
}

/// A rectangle from its four coordinates.
pub open spec fn rect(x: int, y: int, width: int, height: int) -> RectU {
    RectU {
        position: PositionU { x: x as usize, y: y as usize },
        size: Size { width: width as usize, height: height as usize },
    }
}

impl NineSlices {
    /// The slices that `offsets` cut out of a bitmap of `size`.
    ///
    /// The columns are `[0, left)`, `[left, width - right)` and `[width - right, width)`,
    /// the rows are `[0, top)`, `[top, height - bottom)` and `[height - bottom, height)`;
    /// the top-right slice starts `left` pixels from the right edge.
    pub open spec fn spec_new(offsets: BorderOffsets, size: Size) -> NineSlices {
        let (l, t, r, b) = (
            offsets.left as int,
            offsets.top as int,
            offsets.right as int,
            offsets.bottom as int,
        );
        let (w, h) = (size.width as int, size.height as int);
        NineSlices {
            inner: rect(l, t, w - (l + r), h - (t + b)),
            left: rect(0, t, l, h - (t + b)),
            top_left: rect(0, 0, l, t),
            top: rect(l, 0, w - (l + r), t),
            top_right: rect(w - l, 0, r, t),
            right: rect(w - r, t, r, h - (t + b)),
            bottom_right: rect(w - r, h - b, r, b),
            bottom: rect(l, h - b, w - (l + r), b),
            bottom_left: rect(0, h - b, l, b),
        }
    }

    pub fn new(offsets: BorderOffsets, size: Size) -> (s: Self)
        requires
            offsets.left + offsets.right <= size.width,
            offsets.top + offsets.bottom <= size.height,
        ensures
            s == Self::spec_new(offsets, size),
    {
        let inner = RectU {
            position: PositionU { x: offsets.left, y: offsets.top },
            size: Size {
                width: size.width - (offsets.left + offsets.right),
                height: size.height - (offsets.top + offsets.bottom),
            },
        };
        let left = RectU {
            position: PositionU { x: 0, y: offsets.top },
            size: Size {
                width: offsets.left,
                height: size.height - (offsets.top + offsets.bottom),
            },
        };
        let top_left = RectU {
            position: PositionU { x: 0, y: 0 },
            size: Size { width: offsets.left, height: offsets.top },
        };
        let top = RectU {
            position: PositionU { x: offsets.left, y: 0 },
            size: Size {
                width: size.width - (offsets.left + offsets.right),
                height: offsets.top,
            },
        };
        let top_right = RectU {
            position: PositionU { x: size.width - offsets.left, y: 0 },
            size: Size { width: offsets.right, height: offsets.top },
        };
        let right = RectU {
            position: PositionU { x: size.width - offsets.right, y: offsets.top },
            size: Size {
                width: offsets.right,
                height: size.height - (offsets.top + offsets.bottom),
            },
        };
        let bottom_right = RectU {
            position: PositionU {
                x: size.width - offsets.right,
                y: size.height - offsets.bottom,
            },
            size: Size { width: offsets.right, height: offsets.bottom },
        };
        let bottom = RectU {
            position: PositionU { x: offsets.left, y: size.height - offsets.bottom },
            size: Size {
                width: size.width - (offsets.left + offsets.right),
                height: offsets.bottom,
            },
        };
        let bottom_left = RectU {
            position: PositionU { x: 0, y: size.height - offsets.bottom },
            size: Size { width: offsets.left, height: offsets.bottom },
        };
        NineSlices {
            inner,
            left,
            top_left,
            top,
            top_right,
            right,
            bottom_right,
            bottom,
            bottom_left,
        }
    }
}

/// For valid offsets, every slice but the top-right one lies inside the bitmap and none is empty;
/// the top-right slice starts inside the bitmap, `left` pixels from its right edge.
pub proof fn lemma_slices_in_bitmap(offsets: BorderOffsets, size: Size)
    requires
        offsets.valid_for(size),
    ensures
        ({
            let s = NineSlices::spec_new(offsets, size);
            &&& s.inner.within(size) && s.inner.size.width > 0 && s.inner.size.height > 0
            &&& s.left.within(size) && s.left.size.width > 0 && s.left.size.height > 0
            &&& s.top_left.within(size) && s.top_left.size.width > 0 && s.top_left.size.height > 0
            &&& s.top.within(size) && s.top.size.width > 0 && s.top.size.height > 0
            &&& s.right.within(size) && s.right.size.width > 0 && s.right.size.height > 0
            &&& s.bottom_right.within(size) && s.bottom_right.size.width > 0
                && s.bottom_right.size.height > 0
            &&& s.bottom.within(size) && s.bottom.size.width > 0 && s.bottom.size.height > 0
            &&& s.bottom_left.within(size) && s.bottom_left.size.width > 0
                && s.bottom_left.size.height > 0
            &&& s.top_right.position.x < size.width && s.top_right.position.y == 0
            &&& s.top_right.size.width > 0 && s.top_right.size.height > 0
            &&& s.top_right.size.height < size.height
        }),
{
}

/// The nine slices, row by row from the top-left.
pub open spec fn pieces(s: NineSlices) -> Seq<RectU> {
    seq![s.top_left, s.top, s.top_right, s.left, s.inner, s.right, s.bottom_left, s.bottom, s.bottom_right]
}

/// Some rectangle of `rects` holds the pixel `(x, y)`.
pub open spec fn covers(rects: Seq<RectU>, x: int, y: int) -> bool {
    exists|i: int| 0 <= i < rects.len() && #[trigger] rects[i].contains(x, y)
}

/// Valid offsets with equal left and right offsets cut the bitmap into nine slices that cover
/// every pixel and share none.
pub proof fn lemma_slices_partition(offsets: BorderOffsets, size: Size)
    requires
        offsets.valid_for(size),
        offsets.left == offsets.right,
    ensures
        ({
            let p = pieces(NineSlices::spec_new(offsets, size));
            &&& forall|x: int, y: int|
                0 <= x < size.width && 0 <= y < size.height ==> #[trigger] covers(p, x, y)
            &&& forall|i: int, j: int, x: int, y: int|
                0 <= i < 9 && 0 <= j < 9 && i != j ==> !(#[trigger] p[i].contains(x, y)
                    && #[trigger] p[j].contains(x, y))
        }),
{
    let s = NineSlices::spec_new(offsets, size);
    let p = pieces(s);
    let (l, t, r, b) = (
        offsets.left as int,
        offsets.top as int,
        offsets.right as int,
        offsets.bottom as int,
    );
    let (w, h) = (size.width as int, size.height as int);
    assert forall|x: int, y: int| 0 <= x < w && 0 <= y < h implies #[trigger] covers(p, x, y) by {
        let col = if x < l {
            0int
        } else if x < w - r {
            1int
        } else {
            2int
        };
        let row = if y < t {
            0int
        } else if y < h - b {
            1int
        } else {
            2int
        };
        assert(p[3 * row + col].contains(x, y));
    }
    assert forall|i: int, j: int, x: int, y: int|
        0 <= i < 9 && 0 <= j < 9 && i != j implies !(#[trigger] p[i].contains(x, y)
        && #[trigger] p[j].contains(x, y)) by {
        if p[i].contains(x, y) && p[j].contains(x, y) {
            assert(i == 0 || i == 1 || i == 2 || i == 3 || i == 4 || i == 5 || i == 6 || i == 7
                || i == 8);
            assert(j == 0 || j == 1 || j == 2 || j == 3 || j == 4 || j == 5 || j == 6 || j == 7
                || j == 8);
        }
    }
}

} // verus!
