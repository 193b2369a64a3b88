use crate::geometry::{index_of, PositionU, RectU, Size};
use crate::paint::{apply, Paint};
use vstd::arithmetic::div_mod::lemma_fundamental_div_mod_converse;
use blittle::Size as BlitSize;
use blittle::{PositionI, RectI, Surface};
use vstd::prelude::*;

verus! {

/// What a bitmap holds: its size and its pixels, row by row from the top.
pub struct BitmapView<P> {
    pub size: Size,
    pub pixels: Seq<P>,
}

impl<P> BitmapView<P> {
    /// The pixel at `(x, y)`.
    pub open spec fn at(self, x: int, y: int) -> P {
        self.pixels[index_of(x, y, self.size.width as int)]
    }
}

/// `dst` with the pixel at every `(x, y)` for which `f` names a color replaced by that color.
pub open spec fn repaint<P>(dst: BitmapView<P>, f: spec_fn(int, int) -> Option<P>) -> BitmapView<P> {
    let w = dst.size.width as int;
    BitmapView {
        size: dst.size,
        pixels: Seq::new(
            dst.pixels.len(),
            |i: int|
                match f(i % w, i / w) {
                    Some(p) => p,
                    None => dst.pixels[i],
                },
        ),
    }
}

/// A bitmap of `size` whose pixels are all `color`.
pub open spec fn blank<P>(size: Size, color: P) -> BitmapView<P> {
    BitmapView { size, pixels: Seq::new((size.width * size.height) as nat, |i: int| color) }
}

/// The index of a pixel that lies in the bitmap lies in the buffer; a column index
/// one past the last column still indexes at most one past the buffer's end.
pub proof fn lemma_index_in_bounds(x: int, y: int, w: int, h: int)
    requires
        0 <= x <= w,
        0 <= y < h,
    ensures
        0 <= index_of(x, y, w) <= w * h,
        x < w ==> index_of(x, y, w) < w * h,
        y * w + w <= w * h,
{
    assert(0 <= y * w) by (nonlinear_arith)
        requires
            0 <= y,
            0 <= w,
    ;
    assert(y * w + w <= w * h) by (nonlinear_arith)
        requires
            y < h,
            0 <= w,
    ;
}

/// A buffer index `i` names the pixel `(i % w, i / w)`, and row `y` of the buffer
/// holds exactly the indices `y * w .. y * w + w`.
pub proof fn lemma_row_of_index(i: int, w: int, y: int)
    requires
        0 < w,
        0 <= y,
    ensures
        0 <= i ==> 0 <= i % w < w && 0 <= i / w,
        0 <= i ==> i == index_of(i % w, i / w, w),
        (y * w <= i < y * w + w) <==> (0 <= i && i / w == y),
        y * w <= i < y * w + w ==> i % w == i - y * w,
{
    if 0 <= i {
        vstd::arithmetic::div_mod::lemma_fundamental_div_mod(i, w);
        vstd::arithmetic::div_mod::lemma_mod_bound(i, w);
        vstd::arithmetic::div_mod::lemma_div_pos_is_pos(i, w);
        assert(i / w * w == w * (i / w)) by (nonlinear_arith);
    }
    if y * w <= i < y * w + w {
        assert(0 <= y * w) by (nonlinear_arith)
            requires
                0 <= y,
                0 < w,
        ;
        lemma_fundamental_div_mod_converse(i, w, y, i - y * w);
    }
    if 0 <= i && i / w == y {
        vstd::arithmetic::div_mod::lemma_fundamental_div_mod(i, w);
        vstd::arithmetic::div_mod::lemma_mod_bound(i, w);
        assert(w * (i / w) == y * w) by (nonlinear_arith)
            requires
                i / w == y,
        ;
    }
}

/// A repainted pixel takes the color that `f` names for it, or keeps its color.
pub proof fn lemma_repaint_at<P>(dst: BitmapView<P>, f: spec_fn(int, int) -> Option<P>, x: int, y: int)
    requires
        dst.pixels.len() == dst.size.width * dst.size.height,
        0 <= x < dst.size.width,
        0 <= y < dst.size.height,
    ensures
        repaint(dst, f).at(x, y) == match f(x, y) {
            Some(p) => p,
            None => dst.at(x, y),
        },
        repaint(dst, f).pixels.len() == dst.pixels.len(),
{
    let w = dst.size.width as int;
    lemma_index_in_bounds(x, y, w, dst.size.height as int);
    let i = index_of(x, y, w);
    lemma_row_of_index(i, w, y);
}

/// A pixel buffer and its size: `size.width * size.height` pixels, row by row from the top.
pub struct Bitmap<P> {
    size: Size,
    pixels: Vec<P>,
}

impl<P> View for Bitmap<P> {
    type V = BitmapView<P>;

    closed spec fn view(&self) -> BitmapView<P> {
        BitmapView { size: self.size, pixels: self.pixels@ }
    }
}

impl<P> Bitmap<P> {
    #[verifier::type_invariant]
    spec fn holds_every_pixel(self) -> bool {
        self.pixels.len() == self.size.width * self.size.height
    }
}

impl<P: Copy> Bitmap<P> {
    /// A bitmap of `size` made of `pixels`, or `None` if there aren't exactly
    /// `size.width * size.height` of them.
    pub fn new(size: Size, pixels: Vec<P>) -> (r: Option<Self>)
        ensures
            r is Some <==> pixels.len() == size.width * size.height,
            r matches Some(b) ==> b@.size == size && b@.pixels == pixels@,
    {
        match size.width.checked_mul(size.height) {
            Some(n) => {
                if n == pixels.len() {
                    Some(Bitmap { size, pixels })
                } else {
                    None
                }
            },
            None => {
                proof {
                    assert(pixels.len() <= usize::MAX);
                }
                None
            },
        }
    }

    /// A bitmap of `size` with every pixel set to `color`.
    pub fn new_filled(size: Size, color: P) -> (b: Self)
        requires
            size.width * size.height <= usize::MAX,
        ensures
            b@.size == size,
            b@.pixels.len() == size.width * size.height,
            forall|i: int| 0 <= i < b@.pixels.len() ==> b@.pixels[i] == color,
    {
        let n = size.width * size.height;
        let mut pixels: Vec<P> = Vec::with_capacity(n);
        let mut i: usize = 0;
        while i < n
            invariant
                i <= n,
                pixels.len() == i,
                forall|j: int| 0 <= j < i ==> pixels@[j] == color,
            decreases n - i,
        {
            pixels.push(color);
            i = i + 1;
        }
        Bitmap { size, pixels }
    }

    /// Returns the size of the bitmap.
    pub fn size(&self) -> (s: Size)
        ensures
            s == self@.size,
            self@.pixels.len() == s.width * s.height,
            s.width * s.height <= usize::MAX,
    {
        proof {
            use_type_invariant(self);
        }
        self.size
    }

    /// Returns the pixels, row by row from the top.
    pub fn pixels(&self) -> (r: &[P])
        ensures
            r@ == self@.pixels,
    {
        self.pixels.as_slice()
    }

    /// Returns the pixel buffer.
    pub fn into_pixels(self) -> (r: Vec<P>)
        ensures
            r@ == self@.pixels,
    {
        self.pixels
    }

    /// Convert `(x, y)` coordinates into an index within the pixel buffer.
    pub fn get_index(&self, x: usize, y: usize) -> (i: usize)
        requires
            x + y * self@.size.width <= usize::MAX,
        ensures
            i == index_of(x as int, y as int, self@.size.width as int),
    {
        x + y * self.size.width
    }

    /// Returns the color of the pixel at `position`.
    pub fn get_pixel_unchecked(&self, position: PositionU) -> (p: P)
        requires
            index_of(position.x as int, position.y as int, self@.size.width as int)
                < self@.pixels.len(),
        ensures
            p == self@.at(position.x as int, position.y as int),
    {
        proof {
            use_type_invariant(self);
        }
        let i = self.get_index(position.x, position.y);
        self.pixels[i]
    }

    /// Set the pixels `start..end` of the buffer to `color`.
    pub fn fill_span(self, start: usize, end: usize, color: P) -> (r: Self)
        requires
            start <= end <= self@.pixels.len(),
        ensures
            r@.size == self@.size,
            r@.pixels.len() == self@.pixels.len(),
            forall|i: int|
                0 <= i < self@.pixels.len() ==> #[trigger] r@.pixels[i] == if start <= i < end {
                    color
                } else {
                    self@.pixels[i]
                },
    {
        proof {
            use_type_invariant(&self);
        }
        let ghost before = self@.pixels;
        let Bitmap { size, mut pixels } = self;
        let mut i = start;
        while i < end
            invariant
                start <= i <= end <= pixels.len(),
                pixels.len() == before.len(),
                forall|j: int|
                    0 <= j < pixels.len() ==> #[trigger] pixels@[j] == if start <= j < i {
                        color
                    } else {
                        before[j]
                    },
            decreases end - i,
        {
            pixels.set(i, color);
            i = i + 1;
        }
        Bitmap { size, pixels }
    }

    /// Copy `len` pixels of `src`, starting at `src_start`, to the buffer at `start`.
    pub fn copy_span(self, start: usize, src: &[P], src_start: usize, len: usize) -> (r: Self)
        requires
            start + len <= self@.pixels.len(),
            src_start + len <= src@.len(),
        ensures
            r@.size == self@.size,
            r@.pixels.len() == self@.pixels.len(),
            forall|i: int|
                0 <= i < self@.pixels.len() ==> #[trigger] r@.pixels[i] == if start <= i < start
                    + len {
                    src@[src_start + i - start]
                } else {
                    self@.pixels[i]
                },
    {
        proof {
            use_type_invariant(&self);
        }
        let ghost before = self@.pixels;
        let Bitmap { size, mut pixels } = self;
        let mut k: usize = 0;
        while k < len
            invariant
                k <= len,
                start + len <= pixels.len(),
                src_start + len <= src.len(),
                pixels.len() == before.len(),
                forall|j: int|
                    0 <= j < pixels.len() ==> #[trigger] pixels@[j] == if start <= j < start + k {
                        src@[src_start + j - start]
                    } else {
                        before[j]
                    },
            decreases len - k,
        {
            pixels.set(start + k, src[src_start + k]);
            k = k + 1;
        }
        Bitmap { size, pixels }
    }
}

/// Whether `blittle` can blit `area` of a bitmap of size `src` to `position` on a bitmap of
/// size `dst`: the position lies on the destination, the area starts on the source and is not
/// empty, and the coordinate sums that `blittle` forms fit in `isize` and `usize`.
pub open spec fn blit_fits(src: Size, dst: Size, position: PositionU, area: RectU) -> bool {
    &&& position.x < dst.width
    &&& position.y < dst.height
    &&& area.position.x < src.width
    &&& area.position.y < src.height
    &&& area.size.width > 0
    &&& area.size.height > 0
    &&& position.x + dst.width <= isize::MAX
    &&& position.y + dst.height <= isize::MAX
    &&& position.x + src.width <= isize::MAX
    &&& position.y + src.height <= isize::MAX
    &&& area.position.x + src.width <= isize::MAX
    &&& area.position.y + src.height <= isize::MAX
    &&& area.position.x + area.size.width <= usize::MAX
    &&& area.position.y + area.size.height <= usize::MAX
}

/// Blits `area` of `src` onto `dst` at `position` with `blittle`'s `Surface::set_position`,
/// `Surface::set_area` and `Surface::blit`, the bitmaps copied into and out of `blittle` surfaces.
///
/// Claimed of `blittle` (its source shows it): on inputs that `blit_fits` admits none of the three
/// calls fails, and the blit copies the rows of `area`, clipped to the source bitmap and to the
/// destination, onto the destination with their top-left corner at `position`; no other
/// destination pixel changes.
#[verifier::external_body]
pub(crate) fn blittle_blit<P: Copy + Default>(
    src: &Bitmap<P>,
    position: PositionU,
    area: RectU,
    dst: Bitmap<P>,
) -> (r: Result<Bitmap<P>, blittle::Error>)
    requires
        blit_fits(src@.size, dst@.size, position, area),
    ensures
        r is Ok,
        r->Ok_0@ == apply(dst@, src@, Paint::Blit { position, area }),
{
    let mut from = Surface::new(BlitSize::new(src.size.width, src.size.height));
    from.buffer_mut().copy_from_slice(&src.pixels);
    let mut to = Surface::new(BlitSize::new(dst.size.width, dst.size.height));
    to.buffer_mut().copy_from_slice(&dst.pixels);
    from.set_position(PositionI::new(position.x as isize, position.y as isize), &to)?;
    let size = BlitSize::new(area.size.width, area.size.height);
    from.set_area(Some(RectI { position: PositionI::new(area.position.x as isize, area.position.y as isize), size }))?;
    from.blit(&mut to)?;
    Ok(Bitmap { size: dst.size, pixels: to.buffer().to_vec() })
}

/// Places a surface of `src` size at `position` on one of `dst` size with `blittle`'s
/// `Surface::set_position`, on surfaces of those sizes made by `Surface::new`.
///
/// Claimed of `blittle` (its source shows it): the placement fails exactly when the part of the
/// source that lands on the destination is empty, that is when `position` lies at or past the
/// destination's right or bottom edge or the source has no pixels.
#[verifier::external_body]
pub(crate) fn blittle_set_position<P: Copy + Default>(
    src: Size,
    position: PositionU,
    dst: Size,
) -> (r: Result<(), blittle::Error>)
    requires
        src.width * src.height <= usize::MAX,
        dst.width * dst.height <= usize::MAX,
        position.x + dst.width <= isize::MAX,
        position.y + dst.height <= isize::MAX,
        position.x + src.width <= usize::MAX,
        position.y + src.height <= usize::MAX,
    ensures
        r is Ok <==> (position.x < dst.width && position.y < dst.height && src.width > 0 && src.height > 0),
{
    let mut from = Surface::<Vec<P>, P>::new(BlitSize::new(src.width, src.height));
    let to = Surface::<Vec<P>, P>::new(BlitSize::new(dst.width, dst.height));
    from.set_position(PositionI::new(position.x as isize, position.y as isize), &to)?;
    Ok(())
}

} // verus!
