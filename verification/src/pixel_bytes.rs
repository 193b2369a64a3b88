use vstd::arithmetic::div_mod::lemma_fundamental_div_mod_converse;
use vstd::prelude::*;

verus! {

/// The byte index of pixel `(x, y)` in a buffer of rows `width` pixels long, `stride` bytes per pixel.
pub open spec fn byte_index(x: int, y: int, width: int, stride: int) -> int {
    (x + y * width) * stride
}

/// Convert `(x, y)` coordinates into the index of the pixel's first byte.
pub fn get_index(x: usize, y: usize, width: usize, stride: usize) -> (i: usize)
    requires
        x + y * width <= usize::MAX,
        (x + y * width) * stride <= usize::MAX,
    ensures
        i == byte_index(x as int, y as int, width as int, stride as int),
{
    proof {
        assert(0 <= y * width <= (x + y * width)) by (nonlinear_arith)
            requires
                0 <= x,
                0 <= y,
                0 <= width,
        ;
    }
    (x + y * width) * stride
}

/// Pixel `p` lies in one of the `rows` row spans that start at `(x0, y)` for `y0 <= y < y0 + rows`,
/// each `width` pixels long, in rows of `dst_width` pixels.
pub open spec fn in_rows(p: int, x0: int, y0: int, rows: int, width: int, dst_width: int) -> bool {
    exists|y: int|
        y0 <= y < y0 + rows && #[trigger] row_start(x0, y, dst_width) <= p < row_start(
            x0,
            y,
            dst_width,
        ) + width
}

/// The first pixel of the span in row `y` that starts at column `x0`.
pub open spec fn row_start(x0: int, y: int, dst_width: int) -> int {
    x0 + y * dst_width
}

/// Where the spans fit in a row (`x0 + width <= dst_width`), pixel `(x, y)` of a buffer of rows
/// `dst_width` pixels long lies in the row spans exactly when it lies in the rectangle of columns
/// `x0 .. x0 + width` and rows `y0 .. y0 + rows`.
pub proof fn lemma_in_rows_rect(
    x: int,
    y: int,
    x0: int,
    y0: int,
    rows: int,
    width: int,
    dst_width: int,
)
    requires
        0 <= x < dst_width,
        0 <= y,
        0 <= x0,
        0 <= width,
        x0 + width <= dst_width,
    ensures
        in_rows(x + y * dst_width, x0, y0, rows, width, dst_width) <==> (x0 <= x < x0 + width && y0
            <= y < y0 + rows),
{
    let p = x + y * dst_width;
    if in_rows(p, x0, y0, rows, width, dst_width) {
        let yy = choose|yy: int|
            y0 <= yy < y0 + rows && #[trigger] row_start(x0, yy, dst_width) <= p < row_start(
                x0,
                yy,
                dst_width,
            ) + width;
        if yy < y {
            assert((yy + 1) * dst_width <= y * dst_width) by (nonlinear_arith)
                requires
                    yy < y,
                    dst_width > 0,
            ;
            assert(yy * dst_width + dst_width == (yy + 1) * dst_width) by (nonlinear_arith);
        } else if yy > y {
            assert((y + 1) * dst_width <= yy * dst_width) by (nonlinear_arith)
                requires
                    yy > y,
                    dst_width > 0,
            ;
            assert(y * dst_width + dst_width == (y + 1) * dst_width) by (nonlinear_arith);
        }
        assert(yy == y);
    }
    if x0 <= x < x0 + width && y0 <= y < y0 + rows {
        assert(row_start(x0, y, dst_width) <= p < row_start(x0, y, dst_width) + width);
    }
}

/// A buffer index `k` is byte `k % s` of pixel `k / s`; the bytes of pixel `p` are `p * s .. p * s + s`.
pub proof fn lemma_byte_of_pixel(k: int, p: int, s: int)
    requires
        0 < s,
        0 <= p,
        p * s <= k < p * s + s,
    ensures
        k / s == p,
        k % s == k - p * s,
{
    lemma_fundamental_div_mod_converse(k, s, p, k - p * s);
}

/// Set the bytes of pixel `p`, `color.len()` bytes per pixel, to `color`.
fn write_pixel(dst: &mut [u8], p: usize, color: &[u8])
    requires
        (p + 1) * color@.len() <= old(dst)@.len(),
    ensures
        final(dst)@.len() == old(dst)@.len(),
        forall|k: int|
            0 <= k < old(dst)@.len() ==> #[trigger] final(dst)@[k] == if p * color@.len() <= k < p
                * color@.len() + color@.len() {
                color@[k - p * color@.len()]
            } else {
                old(dst)@[k]
            },
{
    let s = color.len();
    let n = dst.len();
    proof {
        assert((p + 1) * s == p * s + s) by (nonlinear_arith);
    }
    let base = p * s;
    let mut j: usize = 0;
    while j < s
        invariant
            j <= s,
            s == color@.len(),
            base == p * s,
            base + s <= dst@.len(),
            dst@.len() == old(dst)@.len(),
            dst@.len() == n,
            forall|k: int|
                0 <= k < dst@.len() ==> #[trigger] dst@[k] == if base <= k < base + j {
                    color@[k - base]
                } else {
                    old(dst)@[k]
                },
        decreases s - j,
    {
        dst[base + j] = color[j];
        j = j + 1;
    }
}

/// Fill `rows` row spans of `width` pixels, starting at pixel `x0 + y * dst_width` for
/// `y0 <= y < y0 + rows`, with `color`, one pixel being `color.len()` bytes.
pub fn fill_rows(
    dst: &mut [u8],
    color: &[u8],
    dst_width: usize,
    x0: usize,
    y0: usize,
    rows: usize,
    width: usize,
)
    requires
        color@.len() > 0,
        y0 + rows <= usize::MAX,
        rows > 0 ==> (x0 + (y0 + rows - 1) * dst_width + width) * color@.len() <= old(dst)@.len(),
    ensures
        final(dst)@.len() == old(dst)@.len(),
        forall|k: int|
            0 <= k < old(dst)@.len() ==> #[trigger] final(dst)@[k] == if in_rows(
                k / (color@.len() as int),
                x0 as int,
                y0 as int,
                rows as int,
                width as int,
                dst_width as int,
            ) {
                color@[k % (color@.len() as int)]
            } else {
                old(dst)@[k]
            },
{
    let s = color.len();
    let n = dst.len();
    let ghost si = s as int;
    let ghost before = dst@;
    let mut y = y0;
    while y < y0 + rows
        invariant
            y0 <= y <= y0 + rows,
            s == color@.len(),
            si == s,
            si > 0,
            y0 + rows <= usize::MAX,
            rows > 0 ==> (x0 + (y0 + rows - 1) * dst_width + width) * si <= before.len(),
            before.len() == n,
            dst@.len() == before.len(),
            forall|k: int|
                0 <= k < dst@.len() ==> #[trigger] dst@[k] == if in_rows(
                    k / si,
                    x0 as int,
                    y0 as int,
                    y - y0,
                    width as int,
                    dst_width as int,
                ) {
                    color@[k % si]
                } else {
                    before[k]
                },
        decreases y0 + rows - y,
    {
        proof {
            assert((x0 + y * dst_width + width) * si <= (x0 + (y0 + rows - 1) * dst_width + width)
                * si) by (nonlinear_arith)
                requires
                    y <= y0 + rows - 1,
                    0 <= dst_width,
                    0 < si,
            ;
            assert(0 <= y * dst_width) by (nonlinear_arith)
                requires
                    0 <= y,
                    0 <= dst_width,
            ;
            assert((x0 + y * dst_width + width) <= (x0 + y * dst_width + width) * si) by (nonlinear_arith)
                requires
                    0 <= x0 + y * dst_width + width,
                    0 < si,
            ;
        }
        let i0 = x0 + y * dst_width;
        let i1 = i0 + width;
        let mut p = i0;
        while p < i1
            invariant
                i0 <= p <= i1,
                i0 == x0 + y * dst_width,
                i1 == i0 + width,
                y0 <= y < y0 + rows,
                s == color@.len(),
                si == s,
                si > 0,
                i1 * si <= dst@.len(),
                dst@.len() == before.len(),
                before.len() == n,
                forall|k: int|
                    0 <= k < dst@.len() ==> #[trigger] dst@[k] == if in_rows(
                        k / si,
                        x0 as int,
                        y0 as int,
                        y - y0,
                        width as int,
                        dst_width as int,
                    ) || (i0 <= k / si < p) {
                        color@[k % si]
                    } else {
                        before[k]
                    },
            decreases i1 - p,
        {
            proof {
                assert((p + 1) * si <= i1 * si) by (nonlinear_arith)
                    requires
                        p < i1,
                        0 < si,
                ;
            }
            let ghost prev = dst@;
            write_pixel(dst, p, color);
            proof {
                assert forall|k: int| 0 <= k < dst@.len() implies #[trigger] dst@[k] == if in_rows(
                    k / si,
                    x0 as int,
                    y0 as int,
                    y - y0,
                    width as int,
                    dst_width as int,
                ) || (i0 <= k / si < p + 1) {
                    color@[k % si]
                } else {
                    before[k]
                } by {
                    if p * si <= k < p * si + si {
                        lemma_byte_of_pixel(k, p as int, si);
                    } else {
                        vstd::arithmetic::div_mod::lemma_fundamental_div_mod(k, si);
                        vstd::arithmetic::div_mod::lemma_mod_bound(k, si);
                        if k / si == p {
                            assert(k == si * p + k % si);
                            assert(p * si == si * p) by (nonlinear_arith);
                        }
                    }
                }
            }
            p = p + 1;
        }
        proof {
            assert forall|k: int| 0 <= k < dst@.len() implies #[trigger] dst@[k] == if in_rows(
                k / si,
                x0 as int,
                y0 as int,
                y + 1 - y0,
                width as int,
                dst_width as int,
            ) {
                color@[k % si]
            } else {
                before[k]
            } by {
                let q = k / si;
                if i0 <= q < i1 {
                    assert(y0 <= y < y0 + (y + 1 - y0) && row_start(x0 as int, y as int, dst_width as int) <= q
                        < row_start(x0 as int, y as int, dst_width as int) + width);
                }
                if in_rows(q, x0 as int, y0 as int, y + 1 - y0, width as int, dst_width as int) {
                    let yy = choose|yy: int|
                        y0 <= yy < y0 + (y + 1 - y0) && #[trigger] row_start(x0 as int, yy, dst_width as int) <= q
                            < row_start(x0 as int, yy, dst_width as int) + width;
                    if yy < y {
                        assert(y0 <= yy < y0 + (y - y0) && row_start(x0 as int, yy, dst_width as int) <= q
                            < row_start(x0 as int, yy, dst_width as int) + width);
                    }
                }
            }
        }
        y = y + 1;
    }
}

} // verus!
