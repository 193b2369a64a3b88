use crate::bitmap::{
    lemma_index_in_bounds, lemma_repaint_at, lemma_row_of_index, repaint, Bitmap, BitmapView,
};
use crate::error::NineSliceError;
use crate::geometry::{index_of, PositionU, RectU, Size};
use vstd::arithmetic::div_mod::lemma_fundamental_div_mod_converse;
use vstd::prelude::*;

verus! {

/// The smaller of two integers.
pub open spec fn min(a: int, b: int) -> int {
    if a <= b {
        a
    } else {
        b
    }
}

/// One step of painting a destination bitmap from a source bitmap.
pub enum Paint<P> {
    /// Copy `area` of the source to `position`, clipped to both bitmaps.
    Blit { position: PositionU, area: RectU },
    /// Set the `size.width x size.height` pixels at `position`, clipped to the destination, to `color`.
    Fill { position: PositionU, size: Size, color: P },
    /// Tile the rows of `source` side by side across `width` pixels starting at `position`.
    RepeatHorizontal { position: PositionU, source: RectU, width: usize },
    /// Fill `height` rows starting at `position` with rows of `source`, picking source row
    /// `y % source.size.height` for destination row `y`.
    RepeatVertical { position: PositionU, source: RectU, height: usize },
}

/// Width of the part of `area` that a blit to `position` copies: `area` clipped to the
/// source bitmap and to the destination bitmap.
pub open spec fn blit_width(src: Size, dst: Size, position: PositionU, area: RectU) -> int {
    min(
        min(area.size.width as int, src.width - area.position.x),
        dst.width - position.x,
    )
}

/// Height of the part of `area` that a blit to `position` copies.
pub open spec fn blit_height(src: Size, dst: Size, position: PositionU, area: RectU) -> int {
    min(
        min(area.size.height as int, src.height - area.position.y),
        dst.height - position.y,
    )
}

/// The pixels at `[x0, x1) x [y0, y1)` become `color`.
pub open spec fn fill_colors<P>(x0: int, x1: int, y0: int, y1: int, color: P) -> spec_fn(
    int,
    int,
) -> Option<P> {
    |x: int, y: int|
        if x0 <= x < x1 && y0 <= y < y1 {
            Some(color)
        } else {
            None
        }
}

impl<P> Paint<P> {
    /// The new color, if any, of destination pixel `(x, y)`.
    pub open spec fn colors(self, dst: Size, src: BitmapView<P>) -> spec_fn(int, int) -> Option<P> {
        match self {
            Paint::Blit { position, area } => {
                let w = blit_width(src.size, dst, position, area);
                let h = blit_height(src.size, dst, position, area);
                |x: int, y: int|
                    if position.x <= x < position.x + w && position.y <= y < position.y + h {
                        Some(src.at(area.position.x + x - position.x, area.position.y + y - position.y))
                    } else {
                        None
                    }
            },
            Paint::Fill { position, size, color } => fill_colors(
                position.x as int,
                min(position.x + size.width, dst.width as int),
                position.y as int,
                min(position.y + size.height, dst.height as int),
                color,
            ),
            Paint::RepeatHorizontal { position, source, width } => |x: int, y: int|
                if position.x <= x < position.x + width && position.y <= y < position.y
                    + source.size.height {
                    Some(
                        src.at(
                            source.position.x + (x - position.x) % (source.size.width as int),
                            source.position.y + y - position.y,
                        ),
                    )
                } else {
                    None
                },
            Paint::RepeatVertical { position, source, height } => |x: int, y: int|
                if position.x <= x < position.x + source.size.width && position.y <= y
                    < position.y + height {
                    Some(
                        src.at(
                            source.position.x + x - position.x,
                            source.position.y + y % (source.size.height as int),
                        ),
                    )
                } else {
                    None
                },
        }
    }
}

/// `dst` after one paint step from `src`.
pub open spec fn apply<P>(dst: BitmapView<P>, src: BitmapView<P>, step: Paint<P>) -> BitmapView<P> {
    repaint(dst, step.colors(dst.size, src))
}

/// `dst` after the paint steps `steps`, in order, from `src`.
pub open spec fn paint<P>(dst: BitmapView<P>, src: BitmapView<P>, steps: Seq<Paint<P>>) -> BitmapView<
    P,
>
    decreases steps.len(),
{
    if steps.len() == 0 {
        dst
    } else {
        apply(paint(dst, src, steps.drop_last()), src, steps.last())
    }
}

/// Painting keeps the size and the buffer length of the destination.
pub proof fn lemma_paint_size<P>(dst: BitmapView<P>, src: BitmapView<P>, steps: Seq<Paint<P>>)
    ensures
        paint(dst, src, steps).size == dst.size,
        paint(dst, src, steps).pixels.len() == dst.pixels.len(),
    decreases steps.len(),
{
    if steps.len() > 0 {
        lemma_paint_size(dst, src, steps.drop_last());
    }
}

/// No step of `steps` paints the pixel `(x, y)` of a destination of `size`.
pub open spec fn untouched<P>(steps: Seq<Paint<P>>, size: Size, src: BitmapView<P>, x: int, y: int) -> bool {
    forall|i: int| 0 <= i < steps.len() ==> (#[trigger] steps[i]).colors(size, src)(x, y) is None
}

/// Two runs of steps that leave a pixel alone leave it alone one after the other.
pub proof fn lemma_untouched_append<P>(
    first: Seq<Paint<P>>,
    second: Seq<Paint<P>>,
    size: Size,
    src: BitmapView<P>,
    x: int,
    y: int,
)
    requires
        untouched(first, size, src, x, y),
        untouched(second, size, src, x, y),
    ensures
        untouched(first + second, size, src, x, y),
{
    assert forall|i: int| 0 <= i < (first + second).len() implies (#[trigger] (first + second)[i]).colors(
        size,
        src,
    )(x, y) is None by {
        if i >= first.len() {
            assert((first + second)[i] == second[i - first.len()]);
        }
    }
}

/// A pixel that no step paints keeps its color.
pub proof fn lemma_paint_untouched<P>(
    dst: BitmapView<P>,
    src: BitmapView<P>,
    steps: Seq<Paint<P>>,
    x: int,
    y: int,
)
    requires
        dst.pixels.len() == dst.size.width * dst.size.height,
        0 <= x < dst.size.width,
        0 <= y < dst.size.height,
        untouched(steps, dst.size, src, x, y),
    ensures
        paint(dst, src, steps).at(x, y) == dst.at(x, y),
    decreases steps.len(),
{
    if steps.len() > 0 {
        let prev = steps.drop_last();
        assert(untouched(prev, dst.size, src, x, y)) by {
            assert forall|i: int| 0 <= i < prev.len() implies (#[trigger] prev[i]).colors(
                dst.size,
                src,
            )(x, y) is None by {
                assert(prev[i] == steps[i]);
            }
        }
        lemma_paint_untouched(dst, src, prev, x, y);
        lemma_paint_size(dst, src, prev);
        assert(steps.last() == steps[steps.len() - 1]);
        lemma_repaint_at(paint(dst, src, prev), steps.last().colors(dst.size, src), x, y);
    }
}

/// A pixel that the last step paints takes the color that step gives it.
pub proof fn lemma_paint_last<P>(
    dst: BitmapView<P>,
    src: BitmapView<P>,
    steps: Seq<Paint<P>>,
    x: int,
    y: int,
)
    requires
        steps.len() > 0,
        dst.pixels.len() == dst.size.width * dst.size.height,
        0 <= x < dst.size.width,
        0 <= y < dst.size.height,
        steps.last().colors(dst.size, src)(x, y) is Some,
    ensures
        paint(dst, src, steps).at(x, y) == steps.last().colors(dst.size, src)(x, y)->Some_0,
{
    lemma_paint_size(dst, src, steps.drop_last());
    lemma_repaint_at(paint(dst, src, steps.drop_last()), steps.last().colors(dst.size, src), x, y);
}

/// A pixel that step `k` paints and no later step paints keeps the color step `k` gives it.
pub proof fn lemma_paint_at<P>(
    dst: BitmapView<P>,
    src: BitmapView<P>,
    steps: Seq<Paint<P>>,
    k: int,
    x: int,
    y: int,
)
    requires
        0 <= k < steps.len(),
        dst.pixels.len() == dst.size.width * dst.size.height,
        0 <= x < dst.size.width,
        0 <= y < dst.size.height,
        steps[k].colors(dst.size, src)(x, y) is Some,
        untouched(steps.skip(k + 1), dst.size, src, x, y),
    ensures
        paint(dst, src, steps).at(x, y) == steps[k].colors(dst.size, src)(x, y)->Some_0,
{
    let head = steps.take(k + 1);
    let tail = steps.skip(k + 1);
    assert(steps =~= head + tail);
    lemma_paint_append(dst, src, head, tail);
    assert(head.last() == steps[k]);
    lemma_paint_last(dst, src, head, x, y);
    lemma_paint_size(dst, src, head);
    lemma_paint_untouched(paint(dst, src, head), src, tail, x, y);
}

/// Painting one more step paints it over what the earlier steps painted.
pub proof fn lemma_paint_push<P>(dst: BitmapView<P>, src: BitmapView<P>, steps: Seq<Paint<P>>, step: Paint<P>)
    ensures
        paint(dst, src, steps.push(step)) == apply(paint(dst, src, steps), src, step),
{
    assert(steps.push(step).drop_last() =~= steps);
}

/// Painting two runs of steps one after the other paints their concatenation.
pub proof fn lemma_paint_append<P>(dst: BitmapView<P>, src: BitmapView<P>, first: Seq<Paint<P>>, second: Seq<Paint<P>>)
    ensures
        paint(paint(dst, src, first), src, second) == paint(dst, src, first + second),
    decreases second.len(),
{
    if second.len() == 0 {
        assert(first + second =~= first);
    } else {
        lemma_paint_append(dst, src, first, second.drop_last());
        assert((first + second).drop_last() =~= first + second.drop_last());
        assert((first + second).last() == second.last());
    }
}

/// Fill the `size.width x size.height` pixels at `position` with `color`, clipped to `dst`.
pub fn fill_area<P: Copy>(dst: Bitmap<P>, position: PositionU, size: Size, color: P) -> (r: Bitmap<P>)
    requires
        position.x <= dst@.size.width,
        position.x + size.width <= usize::MAX,
        position.y + size.height <= usize::MAX,
    ensures
        r@ == apply(dst@, dst@, Paint::Fill { position, size, color }),
{
    let dst_size = dst.size();
    let ghost before = dst@;
    let ghost w = dst_size.width as int;
    let x0 = position.x;
    let x1 = if x0 + size.width < dst_size.width {
        x0 + size.width
    } else {
        dst_size.width
    };
    let y0 = position.y;
    let y1 = if y0 + size.height < dst_size.height {
        y0 + size.height
    } else {
        dst_size.height
    };
    let mut dst = dst;
    let mut y = y0;
    assert(w == 0 ==> before.pixels.len() == 0) by (nonlinear_arith)
        requires
            before.pixels.len() == w * dst_size.height,
    ;
    assert(dst@.pixels =~= repaint(before, fill_colors(x0 as int, x1 as int, y0 as int, y0 as int, color)).pixels);
    while y < y1
        invariant
            y0 <= y,
            y == y0 || y <= y1,
            x0 <= x1 <= w,
            y1 <= dst_size.height,
            w == dst_size.width,
            before.size == dst_size,
            before.pixels.len() == dst_size.width * dst_size.height,
            dst_size.width * dst_size.height <= usize::MAX,
            w == 0 ==> before.pixels.len() == 0,
            dst@.size == dst_size,
            dst@.pixels == repaint(
                before,
                fill_colors(x0 as int, x1 as int, y0 as int, y as int, color),
            ).pixels,
        decreases y1 - y,
    {
        proof {
            if w > 0 {
                lemma_index_in_bounds(0, y as int, w, dst_size.height as int);
            } else {
                assert(y * w == 0) by (nonlinear_arith)
                    requires
                        w == 0,
                ;
            }
        }
        let i0 = dst.get_index(x0, y);
        let i1 = dst.get_index(x1, y);
        let ghost cur = dst@.pixels;
        dst = dst.fill_span(i0, i1, color);
        proof {
            let next = repaint(before, fill_colors(x0 as int, x1 as int, y0 as int, y + 1, color));
            assert forall|i: int| 0 <= i < dst@.pixels.len() implies dst@.pixels[i] == next.pixels[i] by {
                if w > 0 {
                    lemma_row_of_index(i, w, y as int);
                }
            }
            assert(dst@.pixels =~= next.pixels);
        }
        y = y + 1;
    }
    proof {
        let goal = apply(before, before, Paint::Fill { position, size, color });
        let got = fill_colors(x0 as int, x1 as int, y0 as int, y as int, color);
        let want = fill_colors(
            position.x as int,
            min(position.x + size.width, w),
            position.y as int,
            min(position.y + size.height, dst_size.height as int),
            color,
        );
        assert forall|i: int| 0 <= i < before.pixels.len() implies dst@.pixels[i] == goal.pixels[i] by {
            assert(got(i % w, i / w) == want(i % w, i / w));
        }
        assert(dst@.pixels =~= goal.pixels);
    }
    dst
}

/// Resize a vertical edge by repeating it: destination row `y` of the `height` rows
/// starting at `position` takes the row `y % source.size.height` of `source`.
pub fn repeat_vertical<P: Copy>(
    dst: Bitmap<P>,
    src: &Bitmap<P>,
    position: PositionU,
    source: RectU,
    height: usize,
) -> (r: Bitmap<P>)
    requires
        height > 0 ==> source.size.height > 0,
        position.x + source.size.width <= dst@.size.width,
        position.y + height <= dst@.size.height,
        source.position.x + source.size.width <= src@.size.width,
        source.position.y + source.size.height <= src@.size.height,
    ensures
        r@ == apply(dst@, src@, Paint::RepeatVertical { position, source, height }),
{
    let dst_size = dst.size();
    let src_size = src.size();
    let ghost before = dst@;
    let ghost w = dst_size.width as int;
    let mut dst = dst;
    proof {
        let first = apply(before, src@, Paint::RepeatVertical { position, source, height: 0 });
        assert(dst@.pixels =~= first.pixels);
    }
    let mut y: usize = 0;
    while y < height
        invariant
            y <= height,
            height > 0 ==> source.size.height > 0,
            position.x + source.size.width <= w,
            position.y + height <= dst_size.height,
            source.position.x + source.size.width <= src_size.width,
            source.position.y + source.size.height <= src_size.height,
            src_size == src@.size,
            src@.pixels.len() == src_size.width * src_size.height,
            w == dst_size.width,
            before.size == dst_size,
            before.pixels.len() == dst_size.width * dst_size.height,
            dst_size.width * dst_size.height <= usize::MAX,
            src_size.width * src_size.height <= usize::MAX,
            dst@ == apply(before, src@, Paint::RepeatVertical { position, source, height: y as usize }),
        decreases height - y,
    {
        let dst_y = position.y + y;
        let src_y = source.position.y + dst_y % source.size.height;
        proof {
            lemma_index_in_bounds(position.x as int, dst_y as int, w, dst_size.height as int);
            lemma_index_in_bounds(
                source.position.x as int,
                src_y as int,
                src_size.width as int,
                src_size.height as int,
            );
        }
        let s0 = src.get_index(source.position.x, src_y);
        let d0 = dst.get_index(position.x, dst_y);
        let ghost cur = dst@;
        dst = dst.copy_span(d0, src.pixels(), s0, source.size.width);
        proof {
            let next = apply(
                before,
                src@,
                Paint::RepeatVertical { position, source, height: (y + 1) as usize },
            );
            assert forall|i: int| 0 <= i < dst@.pixels.len() implies dst@.pixels[i]
                == next.pixels[i] by {
                if w == 0 {
                    assert(before.pixels.len() == 0) by (nonlinear_arith)
                        requires
                            before.pixels.len() == w * dst_size.height,
                            w == 0,
                    ;
                }
                lemma_row_of_index(i, w, dst_y as int);
                if d0 <= i < d0 + source.size.width {
                    assert(src@.pixels[s0 + i - d0] == src@.at(
                        source.position.x + (i % w) - position.x,
                        source.position.y + (i / w) % (source.size.height as int),
                    ));
                }
            }
            assert(dst@.pixels =~= next.pixels);
        }
        y = y + 1;
    }
    dst
}

/// Resize a horizontal edge by repeating it: each row of `source` is copied side by side,
/// as many times as fit, across `width` pixels starting at `position`.
pub fn repeat_horizontal<P: Copy>(
    dst: Bitmap<P>,
    src: &Bitmap<P>,
    position: PositionU,
    source: RectU,
    width: usize,
) -> (r: Bitmap<P>)
    requires
        source.size.height > 0 ==> source.size.width > 0,
        position.x + width <= dst@.size.width,
        position.y + source.size.height <= dst@.size.height,
        source.position.x + source.size.width <= src@.size.width,
        source.position.y + source.size.height <= src@.size.height,
    ensures
        r@ == apply(dst@, src@, Paint::RepeatHorizontal { position, source, width }),
{
    let dst_size = dst.size();
    let src_size = src.size();
    let ghost before = dst@;
    let ghost w = dst_size.width as int;
    let ghost sw = source.size.width as int;
    let rows = source.size.height;
    let mut dst = dst;
    proof {
        let first = apply(
            before,
            src@,
            Paint::RepeatHorizontal { position, source: RectU { position: source.position, size: Size { width: source.size.width, height: 0 } }, width },
        );
        assert(dst@.pixels =~= first.pixels);
    }
    let mut y: usize = 0;
    while y < rows
        invariant
            y <= rows,
            rows == source.size.height,
            sw == source.size.width,
            rows > 0 ==> sw > 0,
            position.x + width <= w,
            position.y + rows <= dst_size.height,
            source.position.x + source.size.width <= src_size.width,
            source.position.y + rows <= src_size.height,
            src_size == src@.size,
            src@.pixels.len() == src_size.width * src_size.height,
            w == dst_size.width,
            before.size == dst_size,
            before.pixels.len() == dst_size.width * dst_size.height,
            dst_size.width * dst_size.height <= usize::MAX,
            src_size.width * src_size.height <= usize::MAX,
            dst@ == apply(
                before,
                src@,
                Paint::RepeatHorizontal {
                    position,
                    source: RectU {
                        position: source.position,
                        size: Size { width: source.size.width, height: y as usize },
                    },
                    width,
                },
            ),
        decreases rows - y,
    {
        let dst_y = position.y + y;
        let src_y = source.position.y + y;
        proof {
            lemma_index_in_bounds(position.x as int, dst_y as int, w, dst_size.height as int);
            lemma_index_in_bounds(
                (position.x + width) as int,
                dst_y as int,
                w,
                dst_size.height as int,
            );
            lemma_index_in_bounds(
                source.position.x as int,
                src_y as int,
                src_size.width as int,
                src_size.height as int,
            );
            lemma_index_in_bounds(
                (source.position.x + source.size.width) as int,
                src_y as int,
                src_size.width as int,
                src_size.height as int,
            );
        }
        let s0 = src.get_index(source.position.x, src_y);
        let d0 = dst.get_index(position.x, dst_y);
        let ghost row_start = dst@;
        let mut k: usize = 0;
        let ghost mut m: int = 0;
        while k < width
            invariant
                k <= width,
                k < width ==> k == m * sw,
                0 <= m,
                sw > 0,
                sw == source.size.width,
                d0 + width <= dst_size.width * dst_size.height,
                s0 + sw <= src@.pixels.len(),
                s0 + sw <= src_size.width * src_size.height,
                dst_size.width * dst_size.height <= usize::MAX,
                dst@.size == dst_size,
                dst@.pixels.len() == before.pixels.len(),
                row_start.pixels.len() == before.pixels.len(),
                before.pixels.len() == dst_size.width * dst_size.height,
                forall|i: int|
                    0 <= i < dst@.pixels.len() ==> #[trigger] dst@.pixels[i] == if d0 <= i < d0
                        + k {
                        src@.pixels[s0 + (i - d0) % sw]
                    } else {
                        row_start.pixels[i]
                    },
            decreases width - k,
        {
            let len = if source.size.width < width - k {
                source.size.width
            } else {
                width - k
            };
            let ghost prev = dst@;
            dst = dst.copy_span(d0 + k, src.pixels(), s0, len);
            proof {
                assert forall|i: int| 0 <= i < dst@.pixels.len() implies #[trigger] dst@.pixels[i]
                    == if d0 <= i < d0 + k + len {
                    src@.pixels[s0 + (i - d0) % sw]
                } else {
                    row_start.pixels[i]
                } by {
                    if d0 + k <= i < d0 + k + len {
                        lemma_fundamental_div_mod_converse(i - d0, sw, m, i - d0 - k);
                    }
                }
                if len == source.size.width {
                    m = m + 1;
                    assert(k + len == m * sw) by (nonlinear_arith)
                        requires
                            k == (m - 1) * sw,
                            len == sw,
                    ;
                }
            }
            k = k + len;
        }
        proof {
            let next_source = RectU {
                position: source.position,
                size: Size { width: source.size.width, height: (y + 1) as usize },
            };
            let next = apply(
                before,
                src@,
                Paint::RepeatHorizontal { position, source: next_source, width },
            );
            assert forall|i: int| 0 <= i < dst@.pixels.len() implies dst@.pixels[i]
                == next.pixels[i] by {
                if w == 0 {
                    assert(before.pixels.len() == 0) by (nonlinear_arith)
                        requires
                            before.pixels.len() == w * dst_size.height,
                            w == 0,
                    ;
                }
                lemma_row_of_index(i, w, dst_y as int);
                if d0 <= i < d0 + width {
                    assert(src@.pixels[s0 + (i - d0) % sw] == src@.at(
                        source.position.x + ((i % w) - position.x) % sw,
                        source.position.y + (i / w) - position.y,
                    ));
                }
            }
            assert(dst@.pixels =~= next.pixels);
        }
        y = y + 1;
    }
    proof {
        let done = RectU {
            position: source.position,
            size: Size { width: source.size.width, height: rows },
        };
        assert(done == source);
    }
    dst
}

} // verus!
