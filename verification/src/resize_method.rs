use crate::bitmap::{lemma_index_in_bounds, Bitmap};
use crate::bitmap::BitmapView;
use crate::geometry::{index_of, PositionU, RectU};
use crate::nine_slices::NineSlices;
use vstd::laws_eq::obeys_concrete_eq;
use vstd::prelude::*;

verus! {

/// Whether to fill a bitmap with a color or to resize a bitmap that has multiple colors.
#[derive(Copy, Clone, PartialEq, Debug)]
pub enum ResizeMethod<P: Copy + Clone + Sized + Default + PartialEq> {
    /// Do this if all pixels are the same.
    Fill(P),
    Resize,
}

/// Every pixel `(x, y)` of `slice`, read as buffer index `x + y * width`, has the color of
/// the slice's top-left pixel.
pub open spec fn uniform<P>(bitmap: BitmapView<P>, slice: RectU) -> bool {
    forall|x: int, y: int|
        #![trigger bitmap.at(x, y)]
        slice.contains(x, y) ==> bitmap.at(x, y) == bitmap.at(
            slice.position.x as int,
            slice.position.y as int,
        )
}

/// Every pixel that scanning `slice` reads lies in the buffer of `bitmap`, and the scan's
/// coordinate sums fit in `usize`.
pub open spec fn scannable<P>(bitmap: BitmapView<P>, slice: RectU) -> bool {
    let (x, y, w, h) = (
        slice.position.x as int,
        slice.position.y as int,
        slice.size.width as int,
        slice.size.height as int,
    );
    &&& index_of(x, y, bitmap.size.width as int) < bitmap.pixels.len()
    &&& y + h <= usize::MAX
    &&& h > 0 ==> x + w <= usize::MAX
    &&& w > 0 && h > 0 ==> index_of(x + w - 1, y + h - 1, bitmap.size.width as int)
        < bitmap.pixels.len()
}

/// A nonempty slice that lies inside a bitmap can be scanned.
pub proof fn lemma_within_scannable<P>(bitmap: BitmapView<P>, slice: RectU)
    requires
        bitmap.pixels.len() == bitmap.size.width * bitmap.size.height,
        slice.within(bitmap.size),
        slice.size.width > 0,
        slice.size.height > 0,
    ensures
        scannable(bitmap, slice),
{
    let (w, h) = (bitmap.size.width as int, bitmap.size.height as int);
    lemma_index_in_bounds(slice.position.x as int, slice.position.y as int, w, h);
    lemma_index_in_bounds(
        slice.position.x + slice.size.width - 1,
        slice.position.y + slice.size.height - 1,
        w,
        h,
    );
}

impl<P: Copy + Clone + Sized + Default + PartialEq> ResizeMethod<P> {
    /// `self` is what `ResizeMethod::new` gives for `slice` of `bitmap`: a fill carries the
    /// slice's top-left color, and where `==` on pixels is equality, the method is a fill
    /// exactly when the slice is a single color.
    pub open spec fn describes(self, bitmap: BitmapView<P>, slice: RectU) -> bool {
        &&& self matches ResizeMethod::Fill(c) ==> c == bitmap.at(
            slice.position.x as int,
            slice.position.y as int,
        )
        &&& obeys_concrete_eq::<P>() ==> (self is Fill <==> uniform(bitmap, slice))
    }

    pub fn new(slice: &RectU, surface: &Bitmap<P>) -> (m: Self)
        requires
            scannable(surface@, *slice),
        ensures
            m.describes(surface@, *slice),
    {
        let size = surface.size();
        let ghost w = size.width as int;
        // The top-left pixel.
        let color = surface.get_pixel_unchecked(slice.position);
        let x0 = slice.position.x;
        let y0 = slice.position.y;
        let y_end = slice.position.y + slice.size.height;
        proof {
            if obeys_concrete_eq::<P>() {
                reveal(obeys_concrete_eq);
            }
        }
        // Are all pixels the same color?
        let mut y = y0;
        while y < y_end
            invariant
                y0 <= y <= y_end || (y == y0 && y_end <= y0),
                x0 == slice.position.x,
                y0 == slice.position.y,
                y_end == y0 + slice.size.height,
                scannable(surface@, *slice),
                w == surface@.size.width,
                color == surface@.at(x0 as int, y0 as int),
                obeys_concrete_eq::<P>() ==> forall|xx: int, yy: int|
                    #![trigger surface@.at(xx, yy)]
                    x0 <= xx < x0 + slice.size.width && y0 <= yy < y ==> surface@.at(xx, yy)
                        == color,
            decreases y_end - y,
        {
            let x_end = slice.position.x + slice.size.width;
            let mut x = x0;
            while x < x_end
                invariant
                    x0 <= x <= x_end,
                    y0 <= y < y_end,
                    x0 == slice.position.x,
                    y0 == slice.position.y,
                    x_end == x0 + slice.size.width,
                    y_end == y0 + slice.size.height,
                    scannable(surface@, *slice),
                    w == surface@.size.width,
                    color == surface@.at(x0 as int, y0 as int),
                    obeys_concrete_eq::<P>() ==> forall|xx: int, yy: int|
                        #![trigger surface@.at(xx, yy)]
                        (x0 <= xx < x_end && y0 <= yy < y) || (x0 <= xx < x && yy == y)
                            ==> surface@.at(xx, yy) == color,
                decreases x_end - x,
            {
                proof {
                    assert(x + y * w <= (x_end - 1) + (y_end - 1) * w) by (nonlinear_arith)
                        requires
                            x <= x_end - 1,
                            y <= y_end - 1,
                            0 <= y,
                            0 <= w,
                    ;
                }
                let other = surface.get_pixel_unchecked(PositionU { x, y });
                let same = color == other;
                proof {
                    if obeys_concrete_eq::<P>() {
                        reveal(obeys_concrete_eq);
                    }
                }
                if !same {
                    proof {
                        if obeys_concrete_eq::<P>() {
                            reveal(obeys_concrete_eq);
                            assert(slice.contains(x as int, y as int));
                        }
                    }
                    return ResizeMethod::Resize;
                }
                x = x + 1;
            }
            y = y + 1;
        }
        ResizeMethod::Fill(color)
    }
}

/// Resize methods per slice.
pub struct ResizeMethods<P: Copy + Clone + Sized + Default + PartialEq> {
    pub left: ResizeMethod<P>,
    pub top: ResizeMethod<P>,
    pub right: ResizeMethod<P>,
    pub bottom: ResizeMethod<P>,
    pub inner: ResizeMethod<P>,
}

impl<P: Copy + Clone + Sized + Default + PartialEq> ResizeMethods<P> {
    /// Each method is what `ResizeMethod::new` gives for its slice.
    pub open spec fn describe(self, slices: NineSlices, bitmap: BitmapView<P>) -> bool {
        &&& self.left.describes(bitmap, slices.left)
        &&& self.top.describes(bitmap, slices.top)
        &&& self.right.describes(bitmap, slices.right)
        &&& self.bottom.describes(bitmap, slices.bottom)
        &&& self.inner.describes(bitmap, slices.inner)
    }

    pub fn new(slices: &NineSlices, surface: &Bitmap<P>) -> (m: Self)
        requires
            scannable(surface@, slices.left),
            scannable(surface@, slices.top),
            scannable(surface@, slices.right),
            scannable(surface@, slices.bottom),
            scannable(surface@, slices.inner),
        ensures
            m.describe(*slices, surface@),
    {
        ResizeMethods {
            left: ResizeMethod::new(&slices.left, surface),
            top: ResizeMethod::new(&slices.top, surface),
            right: ResizeMethod::new(&slices.right, surface),
            bottom: ResizeMethod::new(&slices.bottom, surface),
            inner: ResizeMethod::new(&slices.inner, surface),
        }
    }
}

} // verus!
