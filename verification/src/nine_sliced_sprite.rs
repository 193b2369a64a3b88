use crate::bitmap::{blank, blit_fits, blittle_blit, blittle_set_position, Bitmap, BitmapView};
use crate::border_offsets::BorderOffsets;
use crate::border_scaling::BorderScaling;
use crate::error::NineSliceError;
use crate::geometry::{PositionU, RectU, Size};
use crate::nine_slices::{lemma_slices_in_bitmap, NineSlices};
use crate::paint::{
    apply, fill_area, lemma_paint_append, lemma_paint_at, lemma_paint_size, lemma_untouched_append,
    min, untouched, lemma_paint_push, paint, repeat_horizontal, repeat_vertical,
    Paint,
};
use crate::resize_method::{lemma_within_scannable, uniform, ResizeMethod, ResizeMethods};
use vstd::laws_eq::obeys_concrete_eq;
use vstd::prelude::*;

verus! {

/// The resampling filter of `fast_image_resize`.
#[verifier::external_type_specification]
#[verifier::external_body]
pub struct ExResizeAlg(fast_image_resize::ResizeAlg);

/// `ResizeAlg::default()` of `fast_image_resize`; nothing is claimed of the algorithm it names.
pub assume_specification[ <fast_image_resize::ResizeAlg as core::default::Default>::default ]() -> fast_image_resize::ResizeAlg;

/// An area of the source sprite still to be resampled into the destination: `area` of the source,
/// resampled to `size`, lands with its top-left corner at `position`.
#[derive(Copy, Clone, Debug, PartialEq, Eq, Structural)]
pub struct Resample {
    pub area: RectU,
    pub position: PositionU,
    pub size: Size,
}

/// A resized sprite: every corner, fill and repeated border is painted; the areas listed in
/// `resamples` are still to be resampled onto `bitmap`.
pub struct Resized<P> {
    pub bitmap: Bitmap<P>,
    pub resamples: Vec<Resample>,
}

/// The four corner blits, in order: top-left, top-right, bottom-right, bottom-left.
pub open spec fn corner_paints<P>(s: NineSlices, dw: int, dh: int) -> Seq<Paint<P>> {
    seq![
        Paint::Blit { position: s.top_left.position, area: s.top_left },
        Paint::Blit {
            position: PositionU { x: (dw - s.top_right.size.width) as usize, y: 0 },
            area: s.top_right,
        },
        Paint::Blit {
            position: PositionU {
                x: (dw - s.bottom_right.size.width) as usize,
                y: (dh - s.bottom_right.size.height) as usize,
            },
            area: s.bottom_right,
        },
        Paint::Blit {
            position: PositionU { x: 0, y: (dh - s.bottom_right.size.height) as usize },
            area: s.bottom_left,
        },
    ]
}

/// A single-color slice is painted as a fill of the `size` it is resized to, at `position`.
pub open spec fn slice_paints<P: Copy + Clone + Sized + Default + PartialEq>(
    method: ResizeMethod<P>,
    position: PositionU,
    size: Size,
) -> Seq<Paint<P>> {
    match method {
        ResizeMethod::Fill(color) => seq![Paint::Fill { position, size, color }],
        ResizeMethod::Resize => seq![],
    }
}

/// A slice of several colors is resampled to `size` at `position`.
pub open spec fn slice_resamples<P: Copy + Clone + Sized + Default + PartialEq>(
    method: ResizeMethod<P>,
    position: PositionU,
    area: RectU,
    size: Size,
) -> Seq<Resample> {
    match method {
        ResizeMethod::Fill(_) => seq![],
        ResizeMethod::Resize => seq![Resample { area, position, size }],
    }
}

/// Where the inner slice lands on the destination.
pub open spec fn inner_position(s: NineSlices) -> PositionU {
    PositionU { x: s.top_left.size.width, y: s.top_right.size.height }
}

/// The size the inner slice is resized to.
pub open spec fn inner_size(s: NineSlices, dw: int, dh: int) -> Size {
    Size {
        width: (dw - (s.top_left.size.width + s.top_right.size.width)) as usize,
        height: (dh - (s.top_left.size.height + s.bottom_left.size.height)) as usize,
    }
}

/// Where the four borders land when they are stretched: top, right, bottom, left.
pub open spec fn stretch_positions(s: NineSlices, dw: int, dh: int) -> Seq<PositionU> {
    seq![
        s.top.position,
        PositionU { x: (dw - s.right.size.width) as usize, y: s.top.size.height },
        PositionU { x: s.bottom.position.x, y: (dh - s.bottom.size.height) as usize },
        s.left.position,
    ]
}

/// The sizes the four borders are stretched to: top, right, bottom, left.
pub open spec fn stretch_sizes(s: NineSlices, dw: int, dh: int) -> Seq<Size> {
    let width = (dw - (s.left.size.width + s.right.size.width)) as usize;
    let height = (dh - (s.top.size.height + s.bottom.size.height)) as usize;
    seq![
        Size { width, height: s.top.size.height },
        Size { width: s.right.size.width, height },
        Size { width, height: s.bottom.size.height },
        Size { width: s.left.size.width, height },
    ]
}

/// The borders' slices and resize methods, in the order they are stretched: top, right, bottom, left.
pub open spec fn border_slices(s: NineSlices) -> Seq<RectU> {
    seq![s.top, s.right, s.bottom, s.left]
}

pub open spec fn border_methods<P: Copy + Clone + Sized + Default + PartialEq>(
    m: ResizeMethods<P>,
) -> Seq<ResizeMethod<P>> {
    seq![m.top, m.right, m.bottom, m.left]
}

/// What stretching the borders paints.
pub open spec fn stretch_paints<P: Copy + Clone + Sized + Default + PartialEq>(
    s: NineSlices,
    m: ResizeMethods<P>,
    dw: int,
    dh: int,
) -> Seq<Paint<P>> {
    let (ps, ms, zs) = (stretch_positions(s, dw, dh), border_methods(m), stretch_sizes(s, dw, dh));
    slice_paints(ms[0], ps[0], zs[0]) + slice_paints(ms[1], ps[1], zs[1]) + slice_paints(
        ms[2],
        ps[2],
        zs[2],
    ) + slice_paints(ms[3], ps[3], zs[3])
}

/// What stretching the borders leaves to resample.
pub open spec fn stretch_resamples<P: Copy + Clone + Sized + Default + PartialEq>(
    s: NineSlices,
    m: ResizeMethods<P>,
    dw: int,
    dh: int,
) -> Seq<Resample> {
    let (ps, ms, rs, zs) = (
        stretch_positions(s, dw, dh),
        border_methods(m),
        border_slices(s),
        stretch_sizes(s, dw, dh),
    );
    slice_resamples(ms[0], ps[0], rs[0], zs[0]) + slice_resamples(ms[1], ps[1], rs[1], zs[1])
        + slice_resamples(ms[2], ps[2], rs[2], zs[2]) + slice_resamples(ms[3], ps[3], rs[3], zs[3])
}

/// What repeating the borders paints: left, top, right, bottom.
pub open spec fn repeat_paints<P>(s: NineSlices, dw: int, dh: int) -> Seq<Paint<P>> {
    let border_w = (dw - (s.top_left.size.width + s.top_right.size.width)) as usize;
    let border_h = (dh - (s.top_left.size.height + s.bottom_left.size.height)) as usize;
    seq![
        Paint::RepeatVertical { position: s.left.position, source: s.left, height: border_h },
        Paint::RepeatHorizontal { position: s.top.position, source: s.top, width: border_w },
        Paint::RepeatVertical {
            position: PositionU { x: (dw - s.right.size.width) as usize, y: s.right.position.y },
            source: s.right,
            height: border_h,
        },
        Paint::RepeatHorizontal {
            position: PositionU { x: s.bottom.position.x, y: (dh - s.bottom.size.height) as usize },
            source: s.bottom,
            width: border_w,
        },
    ]
}

/// The paint steps that scale the borders: stretched or repeated.
pub open spec fn border_paints<P: Copy + Clone + Sized + Default + PartialEq>(
    s: NineSlices,
    m: ResizeMethods<P>,
    scaling: BorderScaling,
    dw: int,
    dh: int,
) -> Seq<Paint<P>> {
    match scaling {
        BorderScaling::Stretch => stretch_paints(s, m, dw, dh),
        BorderScaling::Repeat => repeat_paints(s, dw, dh),
    }
}

/// Every paint step of resizing to `dw x dh`, in order.
pub open spec fn resize_paints<P: Copy + Clone + Sized + Default + PartialEq>(
    s: NineSlices,
    m: ResizeMethods<P>,
    scaling: BorderScaling,
    dw: int,
    dh: int,
) -> Seq<Paint<P>> {
    corner_paints(s, dw, dh) + slice_paints(m.inner, inner_position(s), inner_size(s, dw, dh)) + border_paints(
        s,
        m,
        scaling,
        dw,
        dh,
    )
}

/// Every area that resizing to `dw x dh` leaves to resample, in order.
pub open spec fn resize_resamples<P: Copy + Clone + Sized + Default + PartialEq>(
    s: NineSlices,
    m: ResizeMethods<P>,
    scaling: BorderScaling,
    dw: int,
    dh: int,
) -> Seq<Resample> {
    slice_resamples(m.inner, inner_position(s), s.inner, inner_size(s, dw, dh)) + match scaling {
        BorderScaling::Stretch => stretch_resamples(s, m, dw, dh),
        BorderScaling::Repeat => seq![],
    }
}

/// A sprite can be resized to `width x height`: the corners fit side by side, the destination
/// buffer's length fits in `usize`, and the coordinate sums that blitting forms fit in `isize`.
pub open spec fn resize_fits(
    offsets: BorderOffsets,
    src: Size,
    width: int,
    height: int,
) -> bool {
    &&& offsets.left + offsets.right <= width
    &&& offsets.top + offsets.bottom <= height
    &&& width * height <= usize::MAX
    &&& 2 * (src.width + width) <= isize::MAX
    &&& 2 * (src.height + height) <= isize::MAX
}

/// The size `width x height`.
pub open spec fn dims(width: u32, height: u32) -> Size {
    Size { width: width as usize, height: height as usize }
}

/// A sprite sliced into a 3x3 grid that can be resized without distorting the corners.
pub struct NineSlicedSprite<P: Copy + Clone + Sized + Default + PartialEq> {
    surface: Bitmap<P>,
    offsets: Ghost<BorderOffsets>,
    slices: NineSlices,
    border_scaling: BorderScaling,
    resize_algorithm: fast_image_resize::ResizeAlg,
    resize_methods: ResizeMethods<P>,
}

impl<P: Copy + Clone + Sized + Default + PartialEq> NineSlicedSprite<P> {
    #[verifier::type_invariant]
    spec fn sliced(self) -> bool {
        &&& self.offsets@.valid_for(self.surface@.size)
        &&& self.slices == NineSlices::spec_new(self.offsets@, self.surface@.size)
        &&& self.resize_methods.describe(self.slices, self.surface@)
    }

    /// The source bitmap.
    pub closed spec fn source(self) -> BitmapView<P> {
        self.surface@
    }

    /// The offsets the sprite was sliced with.
    pub closed spec fn offsets(self) -> BorderOffsets {
        self.offsets@
    }

    /// The nine slices of the source bitmap.
    pub closed spec fn slices(self) -> NineSlices {
        self.slices
    }

    /// How the borders are scaled.
    pub closed spec fn scaling(self) -> BorderScaling {
        self.border_scaling
    }

    /// The resampling filter.
    pub closed spec fn algorithm(self) -> fast_image_resize::ResizeAlg {
        self.resize_algorithm
    }

    /// Whether each border and the inner slice is filled or resampled.
    pub closed spec fn methods(self) -> ResizeMethods<P> {
        self.resize_methods
    }

    /// Slice `surface` into a 3x3 grid using `offsets`.
    pub fn new(surface: Bitmap<P>, offsets: BorderOffsets, border_scaling: BorderScaling) -> (r:
        Result<Self, NineSliceError>)
        ensures
            r is Ok <==> offsets.valid_for(surface@.size),
            r matches Ok(s) ==> {
                &&& s.source() == surface@
                &&& s.offsets() == offsets
                &&& s.slices() == NineSlices::spec_new(offsets, surface@.size)
                &&& s.scaling() == border_scaling
                &&& s.methods().describe(s.slices(), surface@)
                &&& call_ensures(
                    <fast_image_resize::ResizeAlg as core::default::Default>::default,
                    (),
                    s.algorithm(),
                )
            },
            r matches Err(e) ==> e == NineSliceError::InvalidSlices(offsets),
    {
        let size = surface.size();
        let slices = match offsets.into_slices(size) {
            Ok(slices) => slices,
            Err(e) => {
                return Err(e);
            },
        };
        proof {
            lemma_slices_in_bitmap(offsets, size);
            lemma_within_scannable(surface@, slices.left);
            lemma_within_scannable(surface@, slices.top);
            lemma_within_scannable(surface@, slices.right);
            lemma_within_scannable(surface@, slices.bottom);
            lemma_within_scannable(surface@, slices.inner);
        }
        let resize_methods = ResizeMethods::new(&slices, &surface);
        Ok(NineSlicedSprite {
            surface,
            offsets: Ghost(offsets),
            slices,
            border_scaling,
            resize_algorithm: fast_image_resize::ResizeAlg::default(),
            resize_methods,
        })
    }

    /// Set the resize algorithm.
    ///
    /// The default algorithm is Lanczos3, which is slow but results in a high-quality resized image.
    /// The fastest option, with the worst quality, is `ResizeAlg::Nearest`.
    pub fn set_resize_algorithm(&mut self, resize_algorithm: fast_image_resize::ResizeAlg)
        ensures
            final(self).algorithm() == resize_algorithm,
            final(self).source() == old(self).source(),
            final(self).offsets() == old(self).offsets(),
            final(self).slices() == old(self).slices(),
            final(self).scaling() == old(self).scaling(),
            final(self).methods() == old(self).methods(),
    {
        proof {
            use_type_invariant(&*self);
        }
        self.resize_algorithm = resize_algorithm;
    }

    /// The resize algorithm.
    pub fn resize_algorithm(&self) -> (r: fast_image_resize::ResizeAlg)
        ensures
            r == self.algorithm(),
    {
        self.resize_algorithm
    }

    /// The source bitmap.
    pub fn surface(&self) -> (r: &Bitmap<P>)
        ensures
            r@ == self.source(),
    {
        &self.surface
    }

    /// Give back the source bitmap.
    pub fn finish(self) -> (r: Bitmap<P>)
        ensures
            r@ == self.source(),
    {
        self.surface
    }

    /// The sprite can be resized to `width x height`.
    pub open spec fn fits(self, width: int, height: int) -> bool {
        resize_fits(self.offsets(), self.source().size, width, height)
    }

    /// The destination of resizing to `width x height`, `background` where nothing is painted,
    /// after every paint step.
    pub open spec fn painted(self, background: P, width: u32, height: u32) -> BitmapView<P> {
        paint(
            blank(dims(width, height), background),
            self.source(),
            resize_paints(self.slices(), self.methods(), self.scaling(), width as int, height as int),
        )
    }

    /// The areas that resizing to `width x height` leaves to resample.
    pub open spec fn resampled(self, width: u32, height: u32) -> Seq<Resample> {
        resize_resamples(self.slices(), self.methods(), self.scaling(), width as int, height as int)
    }

    /// Whether the sprite can be resized to `width x height`: the corners fit side by side and
    /// the sizes stay within machine limits.
    /// Resizing to a size where this is `false` has no result.
    pub fn can_resize(&self, width: u32, height: u32) -> (b: bool)
        ensures
            b == self.fits(width as int, height as int),
    {
        proof {
            use_type_invariant(self);
        }
        let size = self.surface.size();
        let (l, t) = (self.slices.top_left.size.width, self.slices.top_left.size.height);
        let (r, b) = (self.slices.bottom_right.size.width, self.slices.bottom_right.size.height);
        let (w, h) = (width as usize, height as usize);
        let fits_corners = l + r <= w && t + b <= h;
        let fits_buffer = match w.checked_mul(h) {
            Some(_) => true,
            None => false,
        };
        let half = (isize::MAX as usize) / 2;
        let fits_blit = w <= half && size.width <= half - w && h <= half && size.height <= half - h;
        fits_corners && fits_buffer && fits_blit
    }

    /// Resize the sprite to dimensions `(width, height)`.
    ///
    /// Returns the resized bitmap with the corners blitted, the single-color slices filled and,
    /// with `BorderScaling::Repeat`, the borders repeated; the slices of several colors are
    /// listed in `resamples`, still to be resampled onto the bitmap.
    pub fn resize(&mut self, width: u32, height: u32) -> (r: Result<Resized<P>, NineSliceError>)
        requires
            old(self).fits(width as int, height as int),
        ensures
            *final(self) == *old(self),
            r is Ok,
            r->Ok_0.bitmap@.size == dims(width, height),
            exists|background: P|
                call_ensures(P::default, (), background) && r->Ok_0.bitmap@
                    == #[trigger] old(self).painted(background, width, height),
            r->Ok_0.resamples@ == old(self).resampled(width, height),
            old(self).offsets().valid_for(old(self).source().size),
            old(self).slices() == NineSlices::spec_new(old(self).offsets(), old(self).source().size),
            old(self).methods().describe(old(self).slices(), old(self).source()),
    {
        proof {
            use_type_invariant(&*self);
            lemma_slices_in_bitmap(self.offsets@, self.surface@.size);
        }
        let dst_size = Size { width: width as usize, height: height as usize };
        // Create a new empty image.
        let background = P::default();
        let dst = Bitmap::new_filled(dst_size, background);
        let ghost start = dst@;
        assert(start == blank(dst_size, background)) by {
            assert(start.pixels =~= blank(dst_size, background).pixels);
        }
        // Blit corners.
        let dst = match self.blit_corners(dst) {
            Ok(dst) => dst,
            Err(e) => {
                return Err(e);
            },
        };
        // Resize and blit the inner area.
        let mut resamples: Vec<Resample> = Vec::new();
        let inner_at = PositionU {
            x: self.slices.top_left.size.width,
            y: self.slices.top_right.size.height,
        };
        let inner_to = Size {
            width: dst_size.width - (self.slices.top_left.size.width
                + self.slices.top_right.size.width),
            height: dst_size.height - (self.slices.top_left.size.height
                + self.slices.bottom_left.size.height),
        };
        let ghost after_corners = dst@;
        let dst = match self.resize_and_blit(
            inner_at,
            &self.slices.inner,
            self.resize_methods.inner,
            inner_to,
            dst,
            &mut resamples,
        ) {
            (dst, Ok(())) => dst,
            (_, Err(e)) => {
                return Err(e);
            },
        };
        let ghost after_inner = dst@;
        // Resize the borders.
        let dst = match self.border_scaling {
            BorderScaling::Stretch => match self.stretch_borders(width, height, dst, &mut resamples) {
                Ok(dst) => dst,
                Err(e) => {
                    return Err(e);
                },
            },
            BorderScaling::Repeat => self.repeat_borders(width, height, dst),
        };
        proof {
            let src = self.surface@;
            let (sl, m) = (self.slices, self.resize_methods);
            let corners = corner_paints::<P>(sl, width as int, height as int);
            let inner = slice_paints(m.inner, inner_position(sl), inner_size(sl, width as int, height as int));
            let borders = border_paints(sl, m, self.border_scaling, width as int, height as int);
            lemma_paint_append(start, src, corners, inner);
            lemma_paint_append(start, src, corners + inner, borders);
            assert(corners + inner + borders == resize_paints(
                sl,
                m,
                self.border_scaling,
                width as int,
                height as int,
            ));
            assert(dst@ == self.painted(background, width, height));
            assert(resamples@ =~= resize_resamples(
                sl,
                m,
                self.border_scaling,
                width as int,
                height as int,
            ));
        }
        Ok(Resized { bitmap: dst, resamples })
    }

    /// Blit `area` of the source to `position` on `dst`.
    fn blit(&self, position: PositionU, area: RectU, dst: Bitmap<P>) -> (r: Result<
        Bitmap<P>,
        NineSliceError,
    >)
        requires
            blit_fits(self.source().size, dst@.size, position, area),
        ensures
            r is Ok,
            r->Ok_0@ == apply(dst@, self.source(), Paint::Blit { position, area }),
    {
        match blittle_blit(&self.surface, position, area, dst) {
            Ok(dst) => Ok(dst),
            Err(e) => Err(NineSliceError::Blittle(e)),
        }
    }

    fn blit_corners(&self, dst: Bitmap<P>) -> (r: Result<Bitmap<P>, NineSliceError>)
        requires
            self.fits(dst@.size.width as int, dst@.size.height as int),
        ensures
            r is Ok,
            r->Ok_0@ == paint(
                dst@,
                self.source(),
                corner_paints(self.slices(), dst@.size.width as int, dst@.size.height as int),
            ),
            r->Ok_0@.size == dst@.size,
    {
        proof {
            use_type_invariant(self);
            lemma_slices_in_bitmap(self.offsets@, self.surface@.size);
        }
        let ghost start = dst@;
        let ghost src = self.surface@;
        let dst_size = dst.size();
        let ghost (dw, dh) = (dst_size.width as int, dst_size.height as int);
        let ghost steps = corner_paints::<P>(self.slices, dw, dh);
        let dst = match self.blit(self.slices.top_left.position, self.slices.top_left, dst) {
            Ok(dst) => dst,
            Err(e) => {
                return Err(e);
            },
        };
        proof {
            lemma_paint_push(start, src, seq![], steps[0]);
            assert(seq![].push(steps[0]) =~= steps.take(1));
        }
        let dst = match self.blit(
            PositionU { x: dst_size.width - self.slices.top_right.size.width, y: 0 },
            self.slices.top_right,
            dst,
        ) {
            Ok(dst) => dst,
            Err(e) => {
                return Err(e);
            },
        };
        proof {
            lemma_paint_push(start, src, steps.take(1), steps[1]);
            assert(steps.take(1).push(steps[1]) =~= steps.take(2));
        }
        let dst = match self.blit(
            PositionU {
                x: dst_size.width - self.slices.bottom_right.size.width,
                y: dst_size.height - self.slices.bottom_right.size.height,
            },
            self.slices.bottom_right,
            dst,
        ) {
            Ok(dst) => dst,
            Err(e) => {
                return Err(e);
            },
        };
        proof {
            lemma_paint_push(start, src, steps.take(2), steps[2]);
            assert(steps.take(2).push(steps[2]) =~= steps.take(3));
        }
        let dst = match self.blit(
            PositionU { x: 0, y: dst_size.height - self.slices.bottom_right.size.height },
            self.slices.bottom_left,
            dst,
        ) {
            Ok(dst) => dst,
            Err(e) => {
                return Err(e);
            },
        };
        proof {
            lemma_paint_push(start, src, steps.take(3), steps[3]);
            assert(steps.take(3).push(steps[3]) =~= steps);
            lemma_paint_size(start, src, steps);
        }
        Ok(dst)
    }

    /// Place the slice `area` at `position` on `dst`, as `blittle` places the source there; then
    /// fill its place, `resize_to` at `position`, if the slice is a single color, and otherwise
    /// list `area` for resampling to `resize_to`. Where the placement fails, `dst` and the list
    /// are left as they were and the `blittle` error is returned.
    fn resize_and_blit(
        &self,
        position: PositionU,
        area: &RectU,
        method: ResizeMethod<P>,
        resize_to: Size,
        dst: Bitmap<P>,
        resamples: &mut Vec<Resample>,
    ) -> (r: (Bitmap<P>, Result<(), NineSliceError>))
        requires
            position.x + dst@.size.width <= isize::MAX,
            position.y + dst@.size.height <= isize::MAX,
            position.x + self.source().size.width <= usize::MAX,
            position.y + self.source().size.height <= usize::MAX,
            position.x + resize_to.width <= usize::MAX,
            position.y + resize_to.height <= usize::MAX,
        ensures
            r.1 is Ok <==> position.x < dst@.size.width && position.y < dst@.size.height,
            r.1 is Ok ==> r.0@ == paint(dst@, self.source(), slice_paints(method, position, resize_to))
                && final(resamples)@ == old(resamples)@ + slice_resamples(
                method,
                position,
                *area,
                resize_to,
            ),
            r.1 is Err ==> r.0@ == dst@ && final(resamples)@ == old(resamples)@ && r.1->Err_0 is Blittle,
            r.0@.size == dst@.size,
    {
        proof {
            use_type_invariant(self);
        }
        let ghost start = dst@;
        let src_size = self.surface.size();
        let dst_size = dst.size();
        match blittle_set_position::<P>(src_size, position, dst_size) {
            Ok(()) => {},
            Err(e) => {
                return (dst, Err(NineSliceError::Blittle(e)));
            },
        }
        proof {
            lemma_paint_size(start, self.surface@, slice_paints(method, position, resize_to));
        }
        match method {
            // An obvious optimization!
            // The slice will sometimes contain a single color.
            // So, let's just create a new bitmap with that color.
            ResizeMethod::Fill(color) => {
                let dst = fill_area(dst, position, resize_to, color);
                proof {
                    let step = Paint::Fill { position, size: resize_to, color };
                    lemma_paint_push(start, self.surface@, seq![], step);
                    assert(seq![].push(step) =~= seq![step]);
                    assert(apply(start, start, step) == apply(start, self.surface@, step));
                    assert(resamples@ =~= old(resamples)@ + seq![]);
                }
                (dst, Ok(()))
            },
            ResizeMethod::Resize => {
                resamples.push(Resample { area: *area, position, size: resize_to });
                assert(dst@ == paint(dst@, self.source(), seq![]));
                (dst, Ok(()))
            },
        }
    }

    /// Resize the borders by stretching them.
    /// `width` and `height` are the dimensions of `dst`.
    fn stretch_borders(
        &self,
        width: u32,
        height: u32,
        dst: Bitmap<P>,
        resamples: &mut Vec<Resample>,
    ) -> (r: Result<Bitmap<P>, NineSliceError>)
        requires
            self.fits(width as int, height as int),
            dst@.size == dims(width, height),
        ensures
            r is Ok,
            r->Ok_0@ == paint(
                dst@,
                self.source(),
                stretch_paints(self.slices(), self.methods(), width as int, height as int),
            ),
            r->Ok_0@.size == dst@.size,
            final(resamples)@ == old(resamples)@ + stretch_resamples(
                self.slices(),
                self.methods(),
                width as int,
                height as int,
            ),
    {
        proof {
            use_type_invariant(self);
            lemma_slices_in_bitmap(self.offsets@, self.surface@.size);
        }
        let ghost start = dst@;
        let ghost src = self.surface@;
        let ghost first = old(resamples)@;
        let ghost (ps, ms, rs, zs) = (
            stretch_positions(self.slices, width as int, height as int),
            border_methods(self.resize_methods),
            border_slices(self.slices),
            stretch_sizes(self.slices, width as int, height as int),
        );
        let total_dst_size = Size { width: width as usize, height: height as usize };
        let width = total_dst_size.width - (self.slices.left.size.width
            + self.slices.right.size.width);
        let height = total_dst_size.height - (self.slices.top.size.height
            + self.slices.bottom.size.height);
        let dst = match self.resize_and_blit(
            self.slices.top.position,
            &self.slices.top,
            self.resize_methods.top,
            Size { width, height: self.slices.top.size.height },
            dst,
            resamples,
        ) {
            (dst, Ok(())) => dst,
            (_, Err(e)) => {
                return Err(e);
            },
        };
        let ghost step1 = dst@;
        let dst = match self.resize_and_blit(
            PositionU {
                x: total_dst_size.width - self.slices.right.size.width,
                y: self.slices.top.size.height,
            },
            &self.slices.right,
            self.resize_methods.right,
            Size { width: self.slices.right.size.width, height },
            dst,
            resamples,
        ) {
            (dst, Ok(())) => dst,
            (_, Err(e)) => {
                return Err(e);
            },
        };
        let ghost step2 = dst@;
        let dst = match self.resize_and_blit(
            PositionU {
                x: self.slices.bottom.position.x,
                y: total_dst_size.height - self.slices.bottom.size.height,
            },
            &self.slices.bottom,
            self.resize_methods.bottom,
            Size { width, height: self.slices.bottom.size.height },
            dst,
            resamples,
        ) {
            (dst, Ok(())) => dst,
            (_, Err(e)) => {
                return Err(e);
            },
        };
        let ghost step3 = dst@;
        let dst = match self.resize_and_blit(
            self.slices.left.position,
            &self.slices.left,
            self.resize_methods.left,
            Size { width: self.slices.left.size.width, height },
            dst,
            resamples,
        ) {
            (dst, Ok(())) => dst,
            (_, Err(e)) => {
                return Err(e);
            },
        };
        proof {
            let a = slice_paints(ms[0], ps[0], zs[0]);
            let b = slice_paints(ms[1], ps[1], zs[1]);
            let c = slice_paints(ms[2], ps[2], zs[2]);
            let d = slice_paints(ms[3], ps[3], zs[3]);
            lemma_paint_append(start, src, a, b);
            lemma_paint_append(start, src, a + b, c);
            lemma_paint_append(start, src, a + b + c, d);
            let ra = slice_resamples(ms[0], ps[0], rs[0], zs[0]);
            let rb = slice_resamples(ms[1], ps[1], rs[1], zs[1]);
            let rc = slice_resamples(ms[2], ps[2], rs[2], zs[2]);
            let rd = slice_resamples(ms[3], ps[3], rs[3], zs[3]);
            assert(resamples@ =~= first + (ra + rb + rc + rd));
            lemma_paint_size(start, src, a + b + c + d);
        }
        Ok(dst)
    }

    /// Resize by repeatedly blitting the source bitmap's borders.
    /// `width` and `height` are the dimensions of `dst`.
    fn repeat_borders(&self, width: u32, height: u32, dst: Bitmap<P>) -> (r: Bitmap<P>)
        requires
            self.fits(width as int, height as int),
            self.scaling() == BorderScaling::Repeat,
            dst@.size == dims(width, height),
        ensures
            r@ == paint(dst@, self.source(), repeat_paints(self.slices(), width as int, height as int)),
            r@.size == dst@.size,
    {
        proof {
            use_type_invariant(self);
            lemma_slices_in_bitmap(self.offsets@, self.surface@.size);
        }
        let ghost start = dst@;
        let ghost src = self.surface@;
        let ghost steps = repeat_paints::<P>(self.slices, width as int, height as int);
        let dst_w = width as usize;
        let dst_h = height as usize;
        let border_w = dst_w - (self.slices.top_left.size.width + self.slices.top_right.size.width);
        let border_h = dst_h - (self.slices.top_left.size.height
            + self.slices.bottom_left.size.height);
        // Left.
        let dst = repeat_vertical(
            dst,
            &self.surface,
            self.slices.left.position,
            self.slices.left,
            border_h,
        );
        proof {
            lemma_paint_push(start, src, seq![], steps[0]);
            assert(seq![].push(steps[0]) =~= steps.take(1));
        }
        // Top.
        let dst = repeat_horizontal(
            dst,
            &self.surface,
            self.slices.top.position,
            self.slices.top,
            border_w,
        );
        proof {
            lemma_paint_push(start, src, steps.take(1), steps[1]);
            assert(steps.take(1).push(steps[1]) =~= steps.take(2));
        }
        // Right.
        let dst = repeat_vertical(
            dst,
            &self.surface,
            PositionU { x: dst_w - self.slices.right.size.width, y: self.slices.right.position.y },
            self.slices.right,
            border_h,
        );
        proof {
            lemma_paint_push(start, src, steps.take(2), steps[2]);
            assert(steps.take(2).push(steps[2]) =~= steps.take(3));
        }
        // Bottom.
        let dst = repeat_horizontal(
            dst,
            &self.surface,
            PositionU { x: self.slices.bottom.position.x, y: dst_h - self.slices.bottom.size.height },
            self.slices.bottom,
            border_w,
        );
        proof {
            lemma_paint_push(start, src, steps.take(3), steps[3]);
            assert(steps.take(3).push(steps[3]) =~= steps);
            lemma_paint_size(start, src, steps);
        }
        dst
    }
}

/// What resizing a sprite cut by `offsets` out of `source` to `width x height` paints,
/// `background` where nothing is painted.
pub open spec fn resized_from<P: Copy + Clone + Sized + Default + PartialEq>(
    offsets: BorderOffsets,
    source: BitmapView<P>,
    methods: ResizeMethods<P>,
    scaling: BorderScaling,
    background: P,
    width: u32,
    height: u32,
) -> BitmapView<P> {
    paint(
        blank(dims(width, height), background),
        source,
        resize_paints(
            NineSlices::spec_new(offsets, source.size),
            methods,
            scaling,
            width as int,
            height as int,
        ),
    )
}

/// A slice paints nothing on the pixel `(x, y)` when it is resampled, or when the clipped
/// rectangle its fill covers misses the pixel.
proof fn lemma_slice_untouched<P: Copy + Clone + Sized + Default + PartialEq>(
    method: ResizeMethod<P>,
    position: PositionU,
    fill: Size,
    size: Size,
    src: BitmapView<P>,
    x: int,
    y: int,
)
    requires
        method is Resize || !(position.x <= x < min(position.x + fill.width, size.width as int)
            && position.y <= y < min(position.y + fill.height, size.height as int)),
    ensures
        untouched(slice_paints(method, position, fill), size, src, x, y),
{
    match method {
        ResizeMethod::Fill(color) => {
            assert(slice_paints(method, position, fill)[0] == Paint::Fill { position, size: fill, color });
        },
        ResizeMethod::Resize => {},
    }
}

/// Nothing painted after the corners reaches a corner of the destination.
proof fn lemma_corners_untouched_after<P: Copy + Clone + Sized + Default + PartialEq>(
    offsets: BorderOffsets,
    source: BitmapView<P>,
    methods: ResizeMethods<P>,
    scaling: BorderScaling,
    width: u32,
    height: u32,
    x: int,
    y: int,
)
    requires
        offsets.valid_for(source.size),
        resize_fits(offsets, source.size, width as int, height as int),
        x < offsets.left || x >= width - offsets.right,
        y < offsets.top || y >= height - offsets.bottom,
    ensures
        ({
            let s = NineSlices::spec_new(offsets, source.size);
            let (dw, dh) = (width as int, height as int);
            let rest = slice_paints(methods.inner, inner_position(s), inner_size(s, dw, dh)) + border_paints(
                s,
                methods,
                scaling,
                dw,
                dh,
            );
            untouched(rest, dims(width, height), source, x, y)
        }),
{
    let s = NineSlices::spec_new(offsets, source.size);
    let (dw, dh) = (width as int, height as int);
    let size = dims(width, height);
    lemma_slice_untouched(methods.inner, inner_position(s), inner_size(s, dw, dh), size, source, x, y);
    let inner = slice_paints(methods.inner, inner_position(s), inner_size(s, dw, dh));
    match scaling {
        BorderScaling::Stretch => {
            let (ps, ms, zs) = (stretch_positions(s, dw, dh), border_methods(methods), stretch_sizes(s, dw, dh));
            lemma_slice_untouched(ms[0], ps[0], zs[0], size, source, x, y);
            lemma_slice_untouched(ms[1], ps[1], zs[1], size, source, x, y);
            lemma_slice_untouched(ms[2], ps[2], zs[2], size, source, x, y);
            lemma_slice_untouched(ms[3], ps[3], zs[3], size, source, x, y);
            let a = slice_paints(ms[0], ps[0], zs[0]);
            let b = slice_paints(ms[1], ps[1], zs[1]);
            let c = slice_paints(ms[2], ps[2], zs[2]);
            let d = slice_paints(ms[3], ps[3], zs[3]);
            lemma_untouched_append(a, b, size, source, x, y);
            lemma_untouched_append(a + b, c, size, source, x, y);
            lemma_untouched_append(a + b + c, d, size, source, x, y);
            lemma_untouched_append(inner, a + b + c + d, size, source, x, y);
        },
        BorderScaling::Repeat => {
            let steps = repeat_paints::<P>(s, dw, dh);
            assert(untouched(steps, size, source, x, y)) by {
                assert forall|i: int| 0 <= i < steps.len() implies (#[trigger] steps[i]).colors(
                    size,
                    source,
                )(x, y) is None by {
                    assert(i == 0 || i == 1 || i == 2 || i == 3);
                }
            }
            lemma_untouched_append(inner, steps, size, source, x, y);
        },
    }
}

/// Resizing does not distort the corners, whether the sprite grows or shrinks: the top-left,
/// bottom-left and bottom-right corners of the result are the source's corners, and the
/// top-right corner holds the `min(left, right)` columns of the source that start `left` pixels
/// from its right edge.
pub proof fn lemma_corners_kept<P: Copy + Clone + Sized + Default + PartialEq>(
    offsets: BorderOffsets,
    source: BitmapView<P>,
    methods: ResizeMethods<P>,
    scaling: BorderScaling,
    background: P,
    width: u32,
    height: u32,
)
    requires
        offsets.valid_for(source.size),
        resize_fits(offsets, source.size, width as int, height as int),
    ensures
        ({
            let out = resized_from(offsets, source, methods, scaling, background, width, height);
            let (l, t, r, b) = (
                offsets.left as int,
                offsets.top as int,
                offsets.right as int,
                offsets.bottom as int,
            );
            let (sw, sh) = (source.size.width as int, source.size.height as int);
            let (dw, dh) = (width as int, height as int);
            &&& forall|x: int, y: int|
                0 <= x < l && 0 <= y < t ==> #[trigger] out.at(x, y) == source.at(x, y)
            &&& forall|x: int, y: int|
                dw - r <= x < dw - r + min(l, r) && 0 <= y < t ==> #[trigger] out.at(x, y)
                    == source.at(x - (dw - r) + (sw - l), y)
            &&& forall|x: int, y: int|
                dw - r <= x < dw && dh - b <= y < dh ==> #[trigger] out.at(x, y) == source.at(
                    x - (dw - r) + (sw - r),
                    y - (dh - b) + (sh - b),
                )
            &&& forall|x: int, y: int|
                0 <= x < l && dh - b <= y < dh ==> #[trigger] out.at(x, y) == source.at(
                    x,
                    y - (dh - b) + (sh - b),
                )
        }),
{
    let s = NineSlices::spec_new(offsets, source.size);
    let (dw, dh) = (width as int, height as int);
    let size = dims(width, height);
    let canvas = blank(size, background);
    let corners = corner_paints::<P>(s, dw, dh);
    let inner = slice_paints(methods.inner, inner_position(s), inner_size(s, dw, dh));
    let borders = border_paints(s, methods, scaling, dw, dh);
    let steps = resize_paints(s, methods, scaling, dw, dh);
    assert(steps =~= corners + (inner + borders));
    assert(canvas.pixels.len() == size.width * size.height);
    let (l, t, r, b) = (
        offsets.left as int,
        offsets.top as int,
        offsets.right as int,
        offsets.bottom as int,
    );
    assert forall|x: int, y: int| 0 <= x < l && 0 <= y < t implies #[trigger] paint(
        canvas,
        source,
        steps,
    ).at(x, y) == source.at(x, y) by {
        lemma_corner_pixel(offsets, source, methods, scaling, background, width, height, 0, x, y);
    }
    assert forall|x: int, y: int| dw - r <= x < dw - r + min(l, r) && 0 <= y < t implies #[trigger] paint(
        canvas,
        source,
        steps,
    ).at(x, y) == source.at(x - (dw - r) + (source.size.width - l), y) by {
        lemma_corner_pixel(offsets, source, methods, scaling, background, width, height, 1, x, y);
    }
    assert forall|x: int, y: int| dw - r <= x < dw && dh - b <= y < dh implies #[trigger] paint(
        canvas,
        source,
        steps,
    ).at(x, y) == source.at(
        x - (dw - r) + (source.size.width - r),
        y - (dh - b) + (source.size.height - b),
    ) by {
        lemma_corner_pixel(offsets, source, methods, scaling, background, width, height, 2, x, y);
    }
    assert forall|x: int, y: int| 0 <= x < l && dh - b <= y < dh implies #[trigger] paint(
        canvas,
        source,
        steps,
    ).at(x, y) == source.at(x, y - (dh - b) + (source.size.height - b)) by {
        lemma_corner_pixel(offsets, source, methods, scaling, background, width, height, 3, x, y);
    }
}

/// A destination pixel in the corner that blit `k` paints keeps the color that blit gives it.
proof fn lemma_corner_pixel<P: Copy + Clone + Sized + Default + PartialEq>(
    offsets: BorderOffsets,
    source: BitmapView<P>,
    methods: ResizeMethods<P>,
    scaling: BorderScaling,
    background: P,
    width: u32,
    height: u32,
    k: int,
    x: int,
    y: int,
)
    requires
        offsets.valid_for(source.size),
        resize_fits(offsets, source.size, width as int, height as int),
        0 <= k < 4,
        k == 0 ==> 0 <= x < offsets.left && 0 <= y < offsets.top,
        k == 1 ==> width - offsets.right <= x < width - offsets.right + min(
            offsets.left as int,
            offsets.right as int,
        ) && 0 <= y < offsets.top,
        k == 2 ==> width - offsets.right <= x < width && height - offsets.bottom <= y < height,
        k == 3 ==> 0 <= x < offsets.left && height - offsets.bottom <= y < height,
    ensures
        ({
            let s = NineSlices::spec_new(offsets, source.size);
            let steps = resize_paints(s, methods, scaling, width as int, height as int);
            let size = dims(width, height);
            &&& steps[k].colors(size, source)(x, y) is Some
            &&& paint(blank(size, background), source, steps).at(x, y) == steps[k].colors(
                size,
                source,
            )(x, y)->Some_0
        }),
{
    let s = NineSlices::spec_new(offsets, source.size);
    let (dw, dh) = (width as int, height as int);
    let size = dims(width, height);
    let canvas = blank(size, background);
    let corners = corner_paints::<P>(s, dw, dh);
    let inner = slice_paints(methods.inner, inner_position(s), inner_size(s, dw, dh));
    let borders = border_paints(s, methods, scaling, dw, dh);
    let steps = resize_paints(s, methods, scaling, dw, dh);
    assert(steps =~= corners + (inner + borders));
    assert(canvas.pixels.len() == size.width * size.height);
    lemma_corners_untouched_after(offsets, source, methods, scaling, width, height, x, y);
    let later = corners.skip(k + 1);
    assert(untouched(later, size, source, x, y)) by {
        assert forall|i: int| 0 <= i < later.len() implies (#[trigger] later[i]).colors(
            size,
            source,
        )(x, y) is None by {
            assert(later[i] == corners[k + 1 + i]);
        }
    }
    lemma_untouched_append(later, inner + borders, size, source, x, y);
    assert(steps.skip(k + 1) =~= later + (inner + borders));
    assert(steps[k] == corners[k]);
    lemma_paint_at(canvas, source, steps, k, x, y);
}

/// Where a resampled area lands on the destination.
pub open spec fn target(job: Resample) -> RectU {
    RectU { position: job.position, size: job.size }
}

/// The pixel `(x, y)` lies in one of the four corners of a `width x height` destination of a
/// sprite cut by `offsets`.
pub open spec fn in_corner(offsets: BorderOffsets, width: int, height: int, x: int, y: int) -> bool {
    &&& (x < offsets.left || x >= width - offsets.right)
    &&& (y < offsets.top || y >= height - offsets.bottom)
}

/// Every job's target lies inside a `width x height` destination and outside its corners.
pub open spec fn placed(jobs: Seq<Resample>, offsets: BorderOffsets, width: u32, height: u32) -> bool {
    &&& forall|i: int| 0 <= i < jobs.len() ==> #[trigger] target(jobs[i]).within(dims(width, height))
    &&& forall|i: int, x: int, y: int|
        0 <= i < jobs.len() && #[trigger] target(jobs[i]).contains(x, y) ==> !in_corner(
            offsets,
            width as int,
            height as int,
            x,
            y,
        )
}

/// No pixel lies in the targets of two jobs of `a`, one of `a` and one of `b`.
pub open spec fn apart(a: Seq<Resample>, b: Seq<Resample>, same: bool) -> bool {
    forall|i: int, j: int, x: int, y: int|
        0 <= i < a.len() && 0 <= j < b.len() && (same ==> i != j) ==> !(#[trigger] target(
            a[i],
        ).contains(x, y) && #[trigger] target(b[j]).contains(x, y))
}

proof fn lemma_jobs_append(
    a: Seq<Resample>,
    b: Seq<Resample>,
    offsets: BorderOffsets,
    width: u32,
    height: u32,
)
    requires
        placed(a, offsets, width, height),
        placed(b, offsets, width, height),
        apart(a, a, true),
        apart(b, b, true),
        apart(a, b, false),
    ensures
        placed(a + b, offsets, width, height),
        apart(a + b, a + b, true),
{
    let c = a + b;
    assert forall|i: int| 0 <= i < c.len() implies #[trigger] target(c[i]).within(dims(width, height)) by {
        if i >= a.len() {
            assert(c[i] == b[i - a.len()]);
        }
    }
    assert forall|i: int, x: int, y: int| 0 <= i < c.len() && #[trigger] target(c[i]).contains(
        x,
        y,
    ) implies !in_corner(offsets, width as int, height as int, x, y) by {
        if i >= a.len() {
            assert(c[i] == b[i - a.len()]);
        }
    }
    assert forall|i: int, j: int, x: int, y: int| 0 <= i < c.len() && 0 <= j < c.len() && i != j implies !(
    #[trigger] target(c[i]).contains(x, y) && #[trigger] target(c[j]).contains(x, y)) by {
        if i >= a.len() {
            assert(c[i] == b[i - a.len()]);
        }
        if j >= a.len() {
            assert(c[j] == b[j - a.len()]);
        }
    }
}

/// A slice leaves at most one job: resampling `area` to `size` at `position`.
proof fn lemma_slice_job<P: Copy + Clone + Sized + Default + PartialEq>(
    method: ResizeMethod<P>,
    position: PositionU,
    area: RectU,
    size: Size,
)
    ensures
        ({
            let jobs = slice_resamples(method, position, area, size);
            &&& jobs.len() <= 1
            &&& forall|i: int| 0 <= i < jobs.len() ==> #[trigger] jobs[i] == (Resample { area, position, size })
        }),
{
}

/// Every area left to resample lands inside the destination and outside its corners, and no two
/// of them overlap: resampling never paints over a corner or over another resampled area.
pub proof fn lemma_resamples_placed<P: Copy + Clone + Sized + Default + PartialEq>(
    offsets: BorderOffsets,
    source: Size,
    methods: ResizeMethods<P>,
    scaling: BorderScaling,
    width: u32,
    height: u32,
)
    requires
        offsets.valid_for(source),
        resize_fits(offsets, source, width as int, height as int),
    ensures
        ({
            let jobs = resize_resamples(
                NineSlices::spec_new(offsets, source),
                methods,
                scaling,
                width as int,
                height as int,
            );
            placed(jobs, offsets, width, height) && apart(jobs, jobs, true)
        }),
{
    let s = NineSlices::spec_new(offsets, source);
    let (dw, dh) = (width as int, height as int);
    let (ps, ms, rs, zs) = (
        stretch_positions(s, dw, dh),
        border_methods(methods),
        border_slices(s),
        stretch_sizes(s, dw, dh),
    );
    let ri = slice_resamples(methods.inner, inner_position(s), s.inner, inner_size(s, dw, dh));
    let ra = slice_resamples(ms[0], ps[0], rs[0], zs[0]);
    let rb = slice_resamples(ms[1], ps[1], rs[1], zs[1]);
    let rc = slice_resamples(ms[2], ps[2], rs[2], zs[2]);
    let rd = slice_resamples(ms[3], ps[3], rs[3], zs[3]);
    lemma_slice_job(methods.inner, inner_position(s), s.inner, inner_size(s, dw, dh));
    lemma_slice_job(ms[0], ps[0], rs[0], zs[0]);
    lemma_slice_job(ms[1], ps[1], rs[1], zs[1]);
    lemma_slice_job(ms[2], ps[2], rs[2], zs[2]);
    lemma_slice_job(ms[3], ps[3], rs[3], zs[3]);
    assert(placed(ri, offsets, width, height));
    assert(apart(ri, ri, true));
    match scaling {
        BorderScaling::Repeat => {
            assert(resize_resamples(s, methods, scaling, dw, dh) =~= ri + seq![]);
            assert(ri + seq![] =~= ri);
        },
        BorderScaling::Stretch => {
            assert(placed(ra, offsets, width, height));
            assert(placed(rb, offsets, width, height));
            assert(placed(rc, offsets, width, height));
            assert(placed(rd, offsets, width, height));
            assert(apart(ra, ra, true));
            assert(apart(rb, rb, true));
            assert(apart(rc, rc, true));
            assert(apart(rd, rd, true));
            assert(apart(ra, rb, false));
            lemma_jobs_append(ra, rb, offsets, width, height);
            assert(apart(ra + rb, rc, false)) by {
                assert forall|i: int, j: int, x: int, y: int|
                    0 <= i < (ra + rb).len() && 0 <= j < rc.len() implies !(#[trigger] target(
                    (ra + rb)[i],
                ).contains(x, y) && #[trigger] target(rc[j]).contains(x, y)) by {
                    if i >= ra.len() {
                        assert((ra + rb)[i] == rb[i - ra.len()]);
                    }
                }
            }
            lemma_jobs_append(ra + rb, rc, offsets, width, height);
            assert(apart(ra + rb + rc, rd, false)) by {
                assert forall|i: int, j: int, x: int, y: int|
                    0 <= i < (ra + rb + rc).len() && 0 <= j < rd.len() implies !(#[trigger] target(
                    (ra + rb + rc)[i],
                ).contains(x, y) && #[trigger] target(rd[j]).contains(x, y)) by {
                    if i >= (ra + rb).len() {
                        assert((ra + rb + rc)[i] == rc[i - (ra + rb).len()]);
                    } else if i >= ra.len() {
                        assert((ra + rb + rc)[i] == rb[i - ra.len()]);
                    } else {
                        assert((ra + rb + rc)[i] == ra[i]);
                    }
                }
            }
            lemma_jobs_append(ra + rb + rc, rd, offsets, width, height);
            let borders = ra + rb + rc + rd;
            assert(apart(ri, borders, false)) by {
                assert forall|i: int, j: int, x: int, y: int|
                    0 <= i < ri.len() && 0 <= j < borders.len() implies !(#[trigger] target(
                    ri[i],
                ).contains(x, y) && #[trigger] target(borders[j]).contains(x, y)) by {
                    if j >= (ra + rb + rc).len() {
                        assert(borders[j] == rd[j - (ra + rb + rc).len()]);
                    } else if j >= (ra + rb).len() {
                        assert(borders[j] == rc[j - (ra + rb).len()]);
                    } else if j >= ra.len() {
                        assert(borders[j] == rb[j - ra.len()]);
                    } else {
                        assert(borders[j] == ra[j]);
                    }
                }
            }
            lemma_jobs_append(ri, borders, offsets, width, height);
        },
    }
}

/// With `BorderScaling::Repeat`, the borders of the result repeat the source's borders: the top
/// and bottom borders tile the source's rows side by side, and the left and right borders take,
/// for destination row `y`, the source border row `y % (source height - top - bottom)`.
pub proof fn lemma_borders_repeated<P: Copy + Clone + Sized + Default + PartialEq>(
    offsets: BorderOffsets,
    source: BitmapView<P>,
    methods: ResizeMethods<P>,
    background: P,
    width: u32,
    height: u32,
)
    requires
        offsets.valid_for(source.size),
        resize_fits(offsets, source.size, width as int, height as int),
    ensures
        ({
            let out = resized_from(
                offsets,
                source,
                methods,
                BorderScaling::Repeat,
                background,
                width,
                height,
            );
            let (l, t, r, b) = (
                offsets.left as int,
                offsets.top as int,
                offsets.right as int,
                offsets.bottom as int,
            );
            let (sw, sh) = (source.size.width as int, source.size.height as int);
            let (dw, dh) = (width as int, height as int);
            let (iw, ih) = (sw - l - r, sh - t - b);
            &&& forall|x: int, y: int|
                l <= x < dw - r && 0 <= y < t ==> #[trigger] out.at(x, y) == source.at(
                    l + (x - l) % iw,
                    y,
                )
            &&& forall|x: int, y: int|
                l <= x < dw - r && dh - b <= y < dh ==> #[trigger] out.at(x, y) == source.at(
                    l + (x - l) % iw,
                    y - (dh - b) + (sh - b),
                )
            &&& forall|x: int, y: int|
                0 <= x < l && t <= y < dh - b ==> #[trigger] out.at(x, y) == source.at(
                    x,
                    t + y % ih,
                )
            &&& forall|x: int, y: int|
                dw - r <= x < dw && t <= y < dh - b ==> #[trigger] out.at(x, y) == source.at(
                    x - (dw - r) + (sw - r),
                    t + y % ih,
                )
        }),
{
    let s = NineSlices::spec_new(offsets, source.size);
    let (dw, dh) = (width as int, height as int);
    let size = dims(width, height);
    let canvas = blank(size, background);
    let steps = resize_paints(s, methods, BorderScaling::Repeat, dw, dh);
    let inner = slice_paints(methods.inner, inner_position(s), inner_size(s, dw, dh));
    let corners = corner_paints::<P>(s, dw, dh);
    let borders = repeat_paints::<P>(s, dw, dh);
    assert(steps =~= corners + inner + borders);
    let base = (corners + inner).len() as int;
    assert(canvas.pixels.len() == size.width * size.height);
    assert forall|k: int| 0 <= k < 4 implies #[trigger] steps[base + k] == borders[k] by {}
    let (l, t, r, b) = (
        offsets.left as int,
        offsets.top as int,
        offsets.right as int,
        offsets.bottom as int,
    );
    assert forall|x: int, y: int| l <= x < dw - r && 0 <= y < t implies #[trigger] paint(
        canvas,
        source,
        steps,
    ).at(x, y) == source.at(l + (x - l) % (source.size.width - l - r), y) by {
        lemma_border_pixel(offsets, source, methods, background, width, height, 1, x, y);
    }
    assert forall|x: int, y: int| l <= x < dw - r && dh - b <= y < dh implies #[trigger] paint(
        canvas,
        source,
        steps,
    ).at(x, y) == source.at(l + (x - l) % (source.size.width - l - r), y - (dh - b) + (source.size.height - b)) by {
        lemma_border_pixel(offsets, source, methods, background, width, height, 3, x, y);
    }
    assert forall|x: int, y: int| 0 <= x < l && t <= y < dh - b implies #[trigger] paint(
        canvas,
        source,
        steps,
    ).at(x, y) == source.at(x, t + y % (source.size.height - t - b)) by {
        lemma_border_pixel(offsets, source, methods, background, width, height, 0, x, y);
    }
    assert forall|x: int, y: int| dw - r <= x < dw && t <= y < dh - b implies #[trigger] paint(
        canvas,
        source,
        steps,
    ).at(x, y) == source.at(x - (dw - r) + (source.size.width - r), t + y % (source.size.height - t - b)) by {
        lemma_border_pixel(offsets, source, methods, background, width, height, 2, x, y);
    }
}

/// A destination pixel in the border that repeat step `k` paints keeps the color that step gives it.
proof fn lemma_border_pixel<P: Copy + Clone + Sized + Default + PartialEq>(
    offsets: BorderOffsets,
    source: BitmapView<P>,
    methods: ResizeMethods<P>,
    background: P,
    width: u32,
    height: u32,
    k: int,
    x: int,
    y: int,
)
    requires
        offsets.valid_for(source.size),
        resize_fits(offsets, source.size, width as int, height as int),
        0 <= k < 4,
        k == 0 ==> 0 <= x < offsets.left && offsets.top <= y < height - offsets.bottom,
        k == 1 ==> offsets.left <= x < width - offsets.right && 0 <= y < offsets.top,
        k == 2 ==> width - offsets.right <= x < width && offsets.top <= y < height - offsets.bottom,
        k == 3 ==> offsets.left <= x < width - offsets.right && height - offsets.bottom <= y
            < height,
    ensures
        ({
            let s = NineSlices::spec_new(offsets, source.size);
            let steps = resize_paints(s, methods, BorderScaling::Repeat, width as int, height as int);
            let borders = repeat_paints::<P>(s, width as int, height as int);
            let size = dims(width, height);
            &&& borders[k].colors(size, source)(x, y) is Some
            &&& paint(blank(size, background), source, steps).at(x, y) == borders[k].colors(
                size,
                source,
            )(x, y)->Some_0
        }),
{
    let s = NineSlices::spec_new(offsets, source.size);
    let (dw, dh) = (width as int, height as int);
    let size = dims(width, height);
    let canvas = blank(size, background);
    let steps = resize_paints(s, methods, BorderScaling::Repeat, dw, dh);
    let inner = slice_paints(methods.inner, inner_position(s), inner_size(s, dw, dh));
    let corners = corner_paints::<P>(s, dw, dh);
    let borders = repeat_paints::<P>(s, dw, dh);
    assert(steps =~= corners + inner + borders);
    let base = (corners + inner).len() as int;
    assert(canvas.pixels.len() == size.width * size.height);
    assert(steps[base + k] == borders[k]);
    let later = steps.skip(base + k + 1);
    assert(untouched(later, size, source, x, y)) by {
        assert forall|i: int| 0 <= i < later.len() implies (#[trigger] later[i]).colors(
            size,
            source,
        )(x, y) is None by {
            assert(later[i] == borders[k + 1 + i]);
        }
    }
    lemma_paint_at(canvas, source, steps, base + k, x, y);
}

/// No step of `steps` touches a pixel that a job of `jobs` lands on.
pub open spec fn unpainted<P>(
    jobs: Seq<Resample>,
    steps: Seq<Paint<P>>,
    size: Size,
    src: BitmapView<P>,
) -> bool {
    forall|i: int, x: int, y: int|
        0 <= i < jobs.len() && #[trigger] target(jobs[i]).contains(x, y) ==> untouched(
            steps,
            size,
            src,
            x,
            y,
        )
}

proof fn lemma_unpainted_append<P>(
    a: Seq<Resample>,
    b: Seq<Resample>,
    steps: Seq<Paint<P>>,
    size: Size,
    src: BitmapView<P>,
)
    requires
        unpainted(a, steps, size, src),
        unpainted(b, steps, size, src),
    ensures
        unpainted(a + b, steps, size, src),
{
    assert forall|i: int, x: int, y: int|
        0 <= i < (a + b).len() && #[trigger] target((a + b)[i]).contains(x, y) implies untouched(
        steps,
        size,
        src,
        x,
        y,
    ) by {
        if i >= a.len() {
            assert((a + b)[i] == b[i - a.len()]);
        } else {
            assert((a + b)[i] == a[i]);
        }
    }
}

/// A pixel outside the corners and inside the place of a resampled slice is left alone by every
/// paint step of resizing.
proof fn lemma_pixel_unpainted<P: Copy + Clone + Sized + Default + PartialEq>(
    offsets: BorderOffsets,
    source: BitmapView<P>,
    methods: ResizeMethods<P>,
    scaling: BorderScaling,
    width: u32,
    height: u32,
    x: int,
    y: int,
)
    requires
        offsets.valid_for(source.size),
        resize_fits(offsets, source.size, width as int, height as int),
        0 <= x < width,
        0 <= y < height,
        !in_corner(offsets, width as int, height as int, x, y),
        ({
            let (l, t, r, b) = (offsets.left, offsets.top, offsets.right, offsets.bottom);
            ||| (l <= x < width - r && t <= y < height - b && methods.inner is Resize)
            ||| (scaling == BorderScaling::Stretch && y < t && methods.top is Resize)
            ||| (scaling == BorderScaling::Stretch && x >= width - r && methods.right is Resize)
            ||| (scaling == BorderScaling::Stretch && y >= height - b && methods.bottom is Resize)
            ||| (scaling == BorderScaling::Stretch && x < l && methods.left is Resize)
        }),
    ensures
        ({
            let s = NineSlices::spec_new(offsets, source.size);
            let (dw, dh) = (width as int, height as int);
            untouched(
                resize_paints(s, methods, scaling, dw, dh),
                dims(width, height),
                source,
                x,
                y,
            )
        }),
{
    let s = NineSlices::spec_new(offsets, source.size);
    let (dw, dh) = (width as int, height as int);
    let size = dims(width, height);
    lemma_slices_in_bitmap(offsets, source.size);
    let corners = corner_paints::<P>(s, dw, dh);
    assert(untouched(corners, size, source, x, y)) by {
        assert forall|i: int| 0 <= i < corners.len() implies (#[trigger] corners[i]).colors(
            size,
            source,
        )(x, y) is None by {
            assert(i == 0 || i == 1 || i == 2 || i == 3);
        }
    }
    let borders = border_paints(s, methods, scaling, dw, dh);
    match scaling {
        BorderScaling::Stretch => {
            let (ps, ms, zs) = (stretch_positions(s, dw, dh), border_methods(methods), stretch_sizes(s, dw, dh));
            lemma_slice_untouched(ms[0], ps[0], zs[0], size, source, x, y);
            lemma_slice_untouched(ms[1], ps[1], zs[1], size, source, x, y);
            lemma_slice_untouched(ms[2], ps[2], zs[2], size, source, x, y);
            lemma_slice_untouched(ms[3], ps[3], zs[3], size, source, x, y);
            let a = slice_paints(ms[0], ps[0], zs[0]);
            let b = slice_paints(ms[1], ps[1], zs[1]);
            let c = slice_paints(ms[2], ps[2], zs[2]);
            let d = slice_paints(ms[3], ps[3], zs[3]);
            lemma_untouched_append(a, b, size, source, x, y);
            lemma_untouched_append(a + b, c, size, source, x, y);
            lemma_untouched_append(a + b + c, d, size, source, x, y);
            assert(borders == a + b + c + d);
        },
        BorderScaling::Repeat => {
            assert(untouched(borders, size, source, x, y)) by {
                assert forall|i: int| 0 <= i < borders.len() implies (#[trigger] borders[i]).colors(
                    size,
                    source,
                )(x, y) is None by {
                    assert(i == 0 || i == 1 || i == 2 || i == 3);
                }
            }
        },
    }
    let inner = slice_paints(methods.inner, inner_position(s), inner_size(s, dw, dh));
    lemma_slice_untouched(methods.inner, inner_position(s), inner_size(s, dw, dh), size, source, x, y);
    lemma_untouched_append(corners, inner, size, source, x, y);
    lemma_untouched_append(corners + inner, borders, size, source, x, y);
}

/// The job a slice leaves, if any, lands where no paint step of resizing paints.
proof fn lemma_slice_job_unpainted<P: Copy + Clone + Sized + Default + PartialEq>(
    offsets: BorderOffsets,
    source: BitmapView<P>,
    methods: ResizeMethods<P>,
    scaling: BorderScaling,
    width: u32,
    height: u32,
    k: int,
)
    requires
        offsets.valid_for(source.size),
        resize_fits(offsets, source.size, width as int, height as int),
        0 <= k < 5,
        scaling == BorderScaling::Repeat ==> k == 0,
    ensures
        ({
            let s = NineSlices::spec_new(offsets, source.size);
            let (dw, dh) = (width as int, height as int);
            let (ps, ms, rs, zs) = (
                stretch_positions(s, dw, dh),
                border_methods(methods),
                border_slices(s),
                stretch_sizes(s, dw, dh),
            );
            let jobs = if k == 0 {
                slice_resamples(methods.inner, inner_position(s), s.inner, inner_size(s, dw, dh))
            } else {
                slice_resamples(ms[k - 1], ps[k - 1], rs[k - 1], zs[k - 1])
            };
            unpainted(
                jobs,
                resize_paints(s, methods, scaling, dw, dh),
                dims(width, height),
                source,
            )
        }),
{
    let s = NineSlices::spec_new(offsets, source.size);
    let (dw, dh) = (width as int, height as int);
    let (ps, ms, rs, zs) = (
        stretch_positions(s, dw, dh),
        border_methods(methods),
        border_slices(s),
        stretch_sizes(s, dw, dh),
    );
    let (method, position, area, size) = if k == 0 {
        (methods.inner, inner_position(s), s.inner, inner_size(s, dw, dh))
    } else {
        (ms[k - 1], ps[k - 1], rs[k - 1], zs[k - 1])
    };
    let jobs = slice_resamples(method, position, area, size);
    let steps = resize_paints::<P>(s, methods, scaling, dw, dh);
    lemma_slice_job(method, position, area, size);
    lemma_resamples_placed(offsets, source.size, methods, scaling, width, height);
    assert forall|i: int, x: int, y: int|
        0 <= i < jobs.len() && #[trigger] target(jobs[i]).contains(x, y) implies untouched(
        steps,
        dims(width, height),
        source,
        x,
        y,
    ) by {
        assert(method is Resize);
        lemma_pixel_unpainted(offsets, source, methods, scaling, width, height, x, y);
    }
}

/// No paint step of resizing (corner blit, fill or repeated border) paints over a place where an
/// area left to resample lands. So the areas can be resampled once every paint step is done,
/// with the same result as resampling each in its turn.
pub proof fn lemma_resamples_unpainted<P: Copy + Clone + Sized + Default + PartialEq>(
    offsets: BorderOffsets,
    source: BitmapView<P>,
    methods: ResizeMethods<P>,
    scaling: BorderScaling,
    width: u32,
    height: u32,
)
    requires
        offsets.valid_for(source.size),
        resize_fits(offsets, source.size, width as int, height as int),
    ensures
        ({
            let s = NineSlices::spec_new(offsets, source.size);
            let (dw, dh) = (width as int, height as int);
            unpainted(
                resize_resamples(s, methods, scaling, dw, dh),
                resize_paints(s, methods, scaling, dw, dh),
                dims(width, height),
                source,
            )
        }),
{
    let s = NineSlices::spec_new(offsets, source.size);
    let (dw, dh) = (width as int, height as int);
    let size = dims(width, height);
    let steps = resize_paints::<P>(s, methods, scaling, dw, dh);
    let (ps, ms, rs, zs) = (
        stretch_positions(s, dw, dh),
        border_methods(methods),
        border_slices(s),
        stretch_sizes(s, dw, dh),
    );
    let ri = slice_resamples(methods.inner, inner_position(s), s.inner, inner_size(s, dw, dh));
    lemma_slice_job_unpainted(offsets, source, methods, scaling, width, height, 0);
    match scaling {
        BorderScaling::Repeat => {
            assert(resize_resamples(s, methods, scaling, dw, dh) =~= ri);
        },
        BorderScaling::Stretch => {
            let ra = slice_resamples(ms[0], ps[0], rs[0], zs[0]);
            let rb = slice_resamples(ms[1], ps[1], rs[1], zs[1]);
            let rc = slice_resamples(ms[2], ps[2], rs[2], zs[2]);
            let rd = slice_resamples(ms[3], ps[3], rs[3], zs[3]);
            lemma_slice_job_unpainted(offsets, source, methods, scaling, width, height, 1);
            lemma_slice_job_unpainted(offsets, source, methods, scaling, width, height, 2);
            lemma_slice_job_unpainted(offsets, source, methods, scaling, width, height, 3);
            lemma_slice_job_unpainted(offsets, source, methods, scaling, width, height, 4);
            lemma_unpainted_append(ri, ra, steps, size, source);
            lemma_unpainted_append(ri + ra, rb, steps, size, source);
            lemma_unpainted_append(ri + ra + rb, rc, steps, size, source);
            lemma_unpainted_append(ri + ra + rb + rc, rd, steps, size, source);
            assert(resize_resamples(s, methods, scaling, dw, dh) =~= ri + ra + rb + rc + rd);
        },
    }
}

/// `after` is `before` with at most its resize algorithm changed, as `set_resize_algorithm`
/// leaves it.
pub open spec fn algorithm_changed<P: Copy + Clone + Sized + Default + PartialEq>(
    before: NineSlicedSprite<P>,
    after: NineSlicedSprite<P>,
) -> bool {
    &&& after.source() == before.source()
    &&& after.offsets() == before.offsets()
    &&& after.slices() == before.slices()
    &&& after.scaling() == before.scaling()
    &&& after.methods() == before.methods()
}

/// Resizing only reads the source: along any run of calls of `set_resize_algorithm` (which
/// changes at most the algorithm) and `resize` (which leaves the sprite as it was), every sprite
/// holds the source the run started from, so `finish` gives that source back.
pub proof fn lemma_source_kept<P: Copy + Clone + Sized + Default + PartialEq>(
    states: Seq<NineSlicedSprite<P>>,
)
    requires
        states.len() > 0,
        forall|k: int|
            0 <= k < states.len() - 1 ==> #[trigger] states[k + 1] == states[k] || algorithm_changed(
                states[k],
                states[k + 1],
            ),
    ensures
        forall|k: int| 0 <= k < states.len() ==> #[trigger] states[k].source() == states[0].source(),
    decreases states.len(),
{
    if states.len() > 1 {
        let front = states.drop_last();
        assert forall|k: int| 0 <= k < front.len() - 1 implies #[trigger] front[k + 1] == front[k]
            || algorithm_changed(front[k], front[k + 1]) by {
            assert(front[k + 1] == states[k + 1]);
            assert(front[k] == states[k]);
        }
        lemma_source_kept(front);
        assert forall|k: int| 0 <= k < states.len() implies #[trigger] states[k].source()
            == states[0].source() by {
            if k < states.len() - 1 {
                assert(states[k] == front[k]);
            } else {
                let j = k - 1;
                assert(states[j] == front[j]);
                assert(states[j + 1] == states[j] || algorithm_changed(states[j], states[j + 1]));
            }
        }
    }
}

/// The pixel `(x, y)` lies in one of the four border places of a `width x height` destination
/// of a sprite cut by `offsets`: the top and bottom rows between the corners, or the left and
/// right columns between the corners.
pub open spec fn in_border(offsets: BorderOffsets, width: int, height: int, x: int, y: int) -> bool {
    let (l, t, r, b) = (offsets.left as int, offsets.top as int, offsets.right as int, offsets.bottom as int);
    ||| (l <= x < width - r && (0 <= y < t || height - b <= y < height))
    ||| (t <= y < height - b && (0 <= x < l || width - r <= x < width))
}

/// Scaling the borders, stretched or repeated, paints the border places and nothing else: the
/// corners and the inner place of the destination are left as they were.
pub proof fn lemma_borders_stay_in_place<P: Copy + Clone + Sized + Default + PartialEq>(
    offsets: BorderOffsets,
    source: BitmapView<P>,
    methods: ResizeMethods<P>,
    scaling: BorderScaling,
    width: u32,
    height: u32,
)
    requires
        offsets.valid_for(source.size),
        resize_fits(offsets, source.size, width as int, height as int),
    ensures
        forall|x: int, y: int|
            0 <= x < width && 0 <= y < height && !in_border(
                offsets,
                width as int,
                height as int,
                x,
                y,
            ) ==> #[trigger] untouched(
                border_paints(
                    NineSlices::spec_new(offsets, source.size),
                    methods,
                    scaling,
                    width as int,
                    height as int,
                ),
                dims(width, height),
                source,
                x,
                y,
            ),
{
    let s = NineSlices::spec_new(offsets, source.size);
    let (dw, dh) = (width as int, height as int);
    let size = dims(width, height);
    lemma_slices_in_bitmap(offsets, source.size);
    let borders = border_paints(s, methods, scaling, dw, dh);
    assert forall|x: int, y: int|
        0 <= x < width && 0 <= y < height && !in_border(offsets, dw, dh, x, y) implies #[trigger] untouched(
        borders,
        size,
        source,
        x,
        y,
    ) by {
        match scaling {
            BorderScaling::Stretch => {
                let (ps, ms, zs) = (stretch_positions(s, dw, dh), border_methods(methods), stretch_sizes(s, dw, dh));
                lemma_slice_untouched(ms[0], ps[0], zs[0], size, source, x, y);
                lemma_slice_untouched(ms[1], ps[1], zs[1], size, source, x, y);
                lemma_slice_untouched(ms[2], ps[2], zs[2], size, source, x, y);
                lemma_slice_untouched(ms[3], ps[3], zs[3], size, source, x, y);
                let a = slice_paints(ms[0], ps[0], zs[0]);
                let b = slice_paints(ms[1], ps[1], zs[1]);
                let c = slice_paints(ms[2], ps[2], zs[2]);
                let d = slice_paints(ms[3], ps[3], zs[3]);
                lemma_untouched_append(a, b, size, source, x, y);
                lemma_untouched_append(a + b, c, size, source, x, y);
                lemma_untouched_append(a + b + c, d, size, source, x, y);
                assert(borders == a + b + c + d);
            },
            BorderScaling::Repeat => {
                assert forall|i: int| 0 <= i < borders.len() implies (#[trigger] borders[i]).colors(
                    size,
                    source,
                )(x, y) is None by {
                    assert(i == 0 || i == 1 || i == 2 || i == 3);
                }
            },
        }
    }
}

/// Where the inner slice lands on a `dw x dh` destination.
pub open spec fn inner_place(s: NineSlices, dw: int, dh: int) -> RectU {
    RectU { position: inner_position(s), size: inner_size(s, dw, dh) }
}

/// Where the stretched borders land: top, right, bottom, left.
pub open spec fn border_places(s: NineSlices, dw: int, dh: int) -> Seq<RectU> {
    let (ps, zs) = (stretch_positions(s, dw, dh), stretch_sizes(s, dw, dh));
    seq![
        RectU { position: ps[0], size: zs[0] },
        RectU { position: ps[1], size: zs[1] },
        RectU { position: ps[2], size: zs[2] },
        RectU { position: ps[3], size: zs[3] },
    ]
}

/// A pixel that step `step` paints, with nothing painted over it afterwards, keeps its color.
proof fn lemma_step_kept<P>(
    dst: BitmapView<P>,
    src: BitmapView<P>,
    before: Seq<Paint<P>>,
    step: Paint<P>,
    after: Seq<Paint<P>>,
    x: int,
    y: int,
)
    requires
        dst.pixels.len() == dst.size.width * dst.size.height,
        0 <= x < dst.size.width,
        0 <= y < dst.size.height,
        step.colors(dst.size, src)(x, y) is Some,
        untouched(after, dst.size, src, x, y),
    ensures
        paint(dst, src, before + seq![step] + after).at(x, y) == step.colors(dst.size, src)(x, y)->Some_0,
{
    let steps = before + seq![step] + after;
    let k = before.len() as int;
    assert(steps[k] == step);
    assert(steps.skip(k + 1) =~= after);
    lemma_paint_at(dst, src, steps, k, x, y);
}

/// A pixel in the place of stretched border `j` is left alone by every other border's step.
proof fn lemma_other_borders_miss<P: Copy + Clone + Sized + Default + PartialEq>(
    offsets: BorderOffsets,
    source: BitmapView<P>,
    methods: ResizeMethods<P>,
    width: u32,
    height: u32,
    j: int,
    x: int,
    y: int,
)
    requires
        offsets.valid_for(source.size),
        resize_fits(offsets, source.size, width as int, height as int),
        0 <= j < 4,
        border_places(NineSlices::spec_new(offsets, source.size), width as int, height as int)[j].contains(x, y),
    ensures
        ({
            let s = NineSlices::spec_new(offsets, source.size);
            let (dw, dh) = (width as int, height as int);
            let (ps, ms, zs) = (stretch_positions(s, dw, dh), border_methods(methods), stretch_sizes(s, dw, dh));
            forall|i: int| 0 <= i < 4 && i != j ==> #[trigger] untouched(
                slice_paints(ms[i], ps[i], zs[i]),
                dims(width, height),
                source,
                x,
                y,
            )
        }),
{
    let s = NineSlices::spec_new(offsets, source.size);
    let (dw, dh) = (width as int, height as int);
    let (ps, ms, zs) = (stretch_positions(s, dw, dh), border_methods(methods), stretch_sizes(s, dw, dh));
    lemma_slices_in_bitmap(offsets, source.size);
    assert forall|i: int| 0 <= i < 4 && i != j implies #[trigger] untouched(
        slice_paints(ms[i], ps[i], zs[i]),
        dims(width, height),
        source,
        x,
        y,
    ) by {
        lemma_slice_untouched(ms[i], ps[i], zs[i], dims(width, height), source, x, y);
    }
}

/// A pixel of the inner place holds the inner slice's fill color.
proof fn lemma_inner_fill_pixel<P: Copy + Clone + Sized + Default + PartialEq>(
    offsets: BorderOffsets,
    source: BitmapView<P>,
    methods: ResizeMethods<P>,
    scaling: BorderScaling,
    background: P,
    width: u32,
    height: u32,
    x: int,
    y: int,
)
    requires
        offsets.valid_for(source.size),
        resize_fits(offsets, source.size, width as int, height as int),
        methods.inner is Fill,
        inner_place(NineSlices::spec_new(offsets, source.size), width as int, height as int).contains(x, y),
    ensures
        resized_from(offsets, source, methods, scaling, background, width, height).at(x, y)
            == methods.inner->Fill_0,
{
    let s = NineSlices::spec_new(offsets, source.size);
    let (dw, dh) = (width as int, height as int);
    let size = dims(width, height);
    let canvas = blank(size, background);
    assert(canvas.pixels.len() == size.width * size.height);
    lemma_slices_in_bitmap(offsets, source.size);
    let corners = corner_paints::<P>(s, dw, dh);
    let borders = border_paints(s, methods, scaling, dw, dh);
    let step = Paint::Fill {
        position: inner_position(s),
        size: inner_size(s, dw, dh),
        color: methods.inner->Fill_0,
    };
    assert(resize_paints(s, methods, scaling, dw, dh) == corners + seq![step] + borders);
    lemma_borders_stay_in_place(offsets, source, methods, scaling, width, height);
    assert(!in_border(offsets, dw, dh, x, y));
    assert(untouched(borders, size, source, x, y));
    lemma_step_kept(canvas, source, corners, step, borders, x, y);
}

/// A pixel of the place of stretched border `j` holds that border's fill color.
proof fn lemma_border_fill_pixel<P: Copy + Clone + Sized + Default + PartialEq>(
    offsets: BorderOffsets,
    source: BitmapView<P>,
    methods: ResizeMethods<P>,
    background: P,
    width: u32,
    height: u32,
    j: int,
    x: int,
    y: int,
)
    requires
        offsets.valid_for(source.size),
        resize_fits(offsets, source.size, width as int, height as int),
        0 <= j < 4,
        border_methods(methods)[j] is Fill,
        border_places(NineSlices::spec_new(offsets, source.size), width as int, height as int)[j].contains(x, y),
    ensures
        resized_from(offsets, source, methods, BorderScaling::Stretch, background, width, height).at(x, y)
            == border_methods(methods)[j]->Fill_0,
{
    let s = NineSlices::spec_new(offsets, source.size);
    let (dw, dh) = (width as int, height as int);
    let size = dims(width, height);
    let canvas = blank(size, background);
    assert(canvas.pixels.len() == size.width * size.height);
    lemma_slices_in_bitmap(offsets, source.size);
    let (ps, ms, zs) = (stretch_positions(s, dw, dh), border_methods(methods), stretch_sizes(s, dw, dh));
    let corners = corner_paints::<P>(s, dw, dh);
    let inner = slice_paints(methods.inner, inner_position(s), inner_size(s, dw, dh));
    let a = slice_paints(ms[0], ps[0], zs[0]);
    let b = slice_paints(ms[1], ps[1], zs[1]);
    let c = slice_paints(ms[2], ps[2], zs[2]);
    let d = slice_paints(ms[3], ps[3], zs[3]);
    let steps = resize_paints(s, methods, BorderScaling::Stretch, dw, dh);
    assert(steps == corners + inner + (a + b + c + d));
    let head = corners + inner;
    let step = Paint::Fill { position: ps[j], size: zs[j], color: ms[j]->Fill_0 };
    lemma_other_borders_miss(offsets, source, methods, width, height, j, x, y);
    if j == 0 {
        assert(a == seq![step]);
        assert(untouched(b, size, source, x, y));
        lemma_untouched_append(b, c, size, source, x, y);
        lemma_untouched_append(b + c, d, size, source, x, y);
        assert(steps =~= head + seq![step] + (b + c + d));
        lemma_step_kept(canvas, source, head, step, b + c + d, x, y);
    } else if j == 1 {
        assert(b == seq![step]);
        assert(untouched(c, size, source, x, y));
        lemma_untouched_append(c, d, size, source, x, y);
        assert(steps =~= (head + a) + seq![step] + (c + d));
        lemma_step_kept(canvas, source, head + a, step, c + d, x, y);
    } else if j == 2 {
        assert(c == seq![step]);
        assert(untouched(d, size, source, x, y));
        assert(steps =~= (head + a + b) + seq![step] + d);
        lemma_step_kept(canvas, source, head + a + b, step, d, x, y);
    } else {
        assert(d == seq![step]);
        assert(steps =~= (head + a + b + c) + seq![step] + seq![]);
        lemma_step_kept(canvas, source, head + a + b + c, step, seq![], x, y);
    }
}

/// Every single-colored slice covers the place it is resized to with its color: the inner
/// slice, and with stretched borders each border. The color is the one `ResizeMethod::Fill`
/// names, the slice's own color.
pub proof fn lemma_fills_cover_their_place<P: Copy + Clone + Sized + Default + PartialEq>(
    offsets: BorderOffsets,
    source: BitmapView<P>,
    methods: ResizeMethods<P>,
    scaling: BorderScaling,
    background: P,
    width: u32,
    height: u32,
)
    requires
        offsets.valid_for(source.size),
        resize_fits(offsets, source.size, width as int, height as int),
    ensures
        ({
            let s = NineSlices::spec_new(offsets, source.size);
            let (dw, dh) = (width as int, height as int);
            let out = resized_from(offsets, source, methods, scaling, background, width, height);
            &&& forall|x: int, y: int|
                methods.inner is Fill && #[trigger] inner_place(s, dw, dh).contains(x, y) ==> out.at(x, y)
                    == methods.inner->Fill_0
            &&& forall|j: int, x: int, y: int|
                scaling == BorderScaling::Stretch && 0 <= j < 4 && border_methods(methods)[j] is Fill
                    && #[trigger] border_places(s, dw, dh)[j].contains(x, y) ==> out.at(x, y)
                    == border_methods(methods)[j]->Fill_0
        }),
{
    let s = NineSlices::spec_new(offsets, source.size);
    let (dw, dh) = (width as int, height as int);
    let out = resized_from(offsets, source, methods, scaling, background, width, height);
    assert forall|x: int, y: int|
        methods.inner is Fill && #[trigger] inner_place(s, dw, dh).contains(x, y) implies out.at(x, y)
            == methods.inner->Fill_0 by {
        lemma_inner_fill_pixel(offsets, source, methods, scaling, background, width, height, x, y);
    }
    assert forall|j: int, x: int, y: int|
        scaling == BorderScaling::Stretch && 0 <= j < 4 && border_methods(methods)[j] is Fill
            && #[trigger] border_places(s, dw, dh)[j].contains(x, y) implies out.at(x, y)
            == border_methods(methods)[j]->Fill_0 by {
        lemma_border_fill_pixel(offsets, source, methods, background, width, height, j, x, y);
    }
}

/// The pixel `(x, y)` lies in a slice of `s` that is left to resample.
pub open spec fn in_resampled_slice<P: Copy + Clone + Sized + Default + PartialEq>(
    s: NineSlices,
    methods: ResizeMethods<P>,
    x: int,
    y: int,
) -> bool {
    ||| methods.inner is Resize && s.inner.contains(x, y)
    ||| methods.top is Resize && s.top.contains(x, y)
    ||| methods.right is Resize && s.right.contains(x, y)
    ||| methods.bottom is Resize && s.bottom.contains(x, y)
    ||| methods.left is Resize && s.left.contains(x, y)
}

/// A pixel of a single-colored slice of the source holds the slice's fill color.
proof fn lemma_fill_is_source<P: Copy + Clone + Sized + Default + PartialEq>(
    method: ResizeMethod<P>,
    source: BitmapView<P>,
    slice: RectU,
    x: int,
    y: int,
)
    requires
        obeys_concrete_eq::<P>(),
        method.describes(source, slice),
        method is Fill,
        slice.contains(x, y),
    ensures
        source.at(x, y) == method->Fill_0,
{
    assert(uniform(source, slice));
    assert(source.at(x, y) == source.at(slice.position.x as int, slice.position.y as int));
}

/// Resizing to the source's own size paints the source back. With stretched borders and equal
/// left and right offsets (the top-right corner starts `left` pixels from the right edge), and
/// pixels whose `==` is equality: every pixel outside the slices left to resample is the source's
/// pixel, and every area left to resample is resampled onto its own place at its own size.
pub proof fn lemma_source_size_kept<P: Copy + Clone + Sized + Default + PartialEq>(
    offsets: BorderOffsets,
    source: BitmapView<P>,
    methods: ResizeMethods<P>,
    background: P,
    width: u32,
    height: u32,
)
    requires
        offsets.valid_for(source.size),
        source.pixels.len() == source.size.width * source.size.height,
        width == source.size.width,
        height == source.size.height,
        resize_fits(offsets, source.size, width as int, height as int),
        offsets.left == offsets.right,
        obeys_concrete_eq::<P>(),
        methods.describe(NineSlices::spec_new(offsets, source.size), source),
    ensures
        ({
            let s = NineSlices::spec_new(offsets, source.size);
            let (w, h) = (width as int, height as int);
            let out = resized_from(offsets, source, methods, BorderScaling::Stretch, background, width, height);
            let jobs = resize_resamples(s, methods, BorderScaling::Stretch, w, h);
            &&& forall|i: int| 0 <= i < jobs.len() ==> #[trigger] target(jobs[i]) == jobs[i].area
            &&& forall|x: int, y: int|
                0 <= x < w && 0 <= y < h && !in_resampled_slice(s, methods, x, y) ==> #[trigger] out.at(x, y)
                    == source.at(x, y)
        }),
{
    let s = NineSlices::spec_new(offsets, source.size);
    let (w, h) = (width as int, height as int);
    let scaling = BorderScaling::Stretch;
    let out = resized_from(offsets, source, methods, scaling, background, width, height);
    let jobs = resize_resamples(s, methods, scaling, w, h);
    lemma_slices_in_bitmap(offsets, source.size);
    let (ps, ms, rs, zs) = (
        stretch_positions(s, w, h),
        border_methods(methods),
        border_slices(s),
        stretch_sizes(s, w, h),
    );
    let ri = slice_resamples(methods.inner, inner_position(s), s.inner, inner_size(s, w, h));
    let ra = slice_resamples(ms[0], ps[0], rs[0], zs[0]);
    let rb = slice_resamples(ms[1], ps[1], rs[1], zs[1]);
    let rc = slice_resamples(ms[2], ps[2], rs[2], zs[2]);
    let rd = slice_resamples(ms[3], ps[3], rs[3], zs[3]);
    assert(jobs =~= ri + ra + rb + rc + rd);
    assert forall|i: int| 0 <= i < jobs.len() implies #[trigger] target(jobs[i]) == jobs[i].area by {
        lemma_slice_job(methods.inner, inner_position(s), s.inner, inner_size(s, w, h));
        lemma_slice_job(ms[0], ps[0], rs[0], zs[0]);
        lemma_slice_job(ms[1], ps[1], rs[1], zs[1]);
        lemma_slice_job(ms[2], ps[2], rs[2], zs[2]);
        lemma_slice_job(ms[3], ps[3], rs[3], zs[3]);
        let k = i;
        if k < ri.len() {
            assert(jobs[i] == ri[k]);
        } else if k < (ri + ra).len() {
            assert(jobs[i] == ra[k - ri.len()]);
        } else if k < (ri + ra + rb).len() {
            assert(jobs[i] == rb[k - (ri + ra).len()]);
        } else if k < (ri + ra + rb + rc).len() {
            assert(jobs[i] == rc[k - (ri + ra + rb).len()]);
        } else {
            assert(jobs[i] == rd[k - (ri + ra + rb + rc).len()]);
        }
    }
    lemma_corners_kept(offsets, source, methods, scaling, background, width, height);
    let places = border_places(s, w, h);
    assert forall|x: int, y: int|
        0 <= x < w && 0 <= y < h && !in_resampled_slice(s, methods, x, y) implies #[trigger] out.at(x, y)
            == source.at(x, y) by {
        let (l, t, r, b) = (offsets.left as int, offsets.top as int, offsets.right as int, offsets.bottom as int);
        if in_corner(offsets, w, h, x, y) {
            assert(out.at(x, y) == source.at(x, y));
        } else if l <= x < w - r && t <= y < h - b {
            assert(s.inner.contains(x, y));
            assert(inner_place(s, w, h).contains(x, y));
            lemma_inner_fill_pixel(offsets, source, methods, scaling, background, width, height, x, y);
            lemma_fill_is_source(methods.inner, source, s.inner, x, y);
        } else if y < t {
            assert(s.top.contains(x, y) && places[0].contains(x, y));
            lemma_border_fill_pixel(offsets, source, methods, background, width, height, 0, x, y);
            lemma_fill_is_source(methods.top, source, s.top, x, y);
        } else if x >= w - r {
            assert(s.right.contains(x, y) && places[1].contains(x, y));
            lemma_border_fill_pixel(offsets, source, methods, background, width, height, 1, x, y);
            lemma_fill_is_source(methods.right, source, s.right, x, y);
        } else if y >= h - b {
            assert(s.bottom.contains(x, y) && places[2].contains(x, y));
            lemma_border_fill_pixel(offsets, source, methods, background, width, height, 2, x, y);
            lemma_fill_is_source(methods.bottom, source, s.bottom, x, y);
        } else {
            assert(s.left.contains(x, y) && places[3].contains(x, y));
            lemma_border_fill_pixel(offsets, source, methods, background, width, height, 3, x, y);
            lemma_fill_is_source(methods.left, source, s.left, x, y);
        }
    }
}

} // verus!
