use crate::geometry::{PositionU, Size};
use crate::pixel_bytes::{byte_index, fill_rows, get_index, in_rows, lemma_byte_of_pixel, lemma_in_rows_rect};
use crate::pixel_type::{PixelType, SurfacePixelType};
use vstd::prelude::*;

verus! {

/// A pixel type and a color.
/// All values are u8 arrays because for the purposes of this crate,
/// we don't need to cast to the correct type.
#[derive(Clone, Eq, PartialEq, Debug)]
pub enum PixelColor {
    One(u8),
    Two([u8; 2]),
    Three([u8; 3]),
    Four([u8; 4]),
    Twelve([u8; 12]),
    Sixteen([u8; 16]),
}

/// The pixel can be read: its first byte index fits in `usize` and all its bytes lie in a
/// buffer of `len` bytes.
pub open spec fn pixel_readable(position: PositionU, width: usize, stride: usize, len: int) -> bool {
    &&& position.x + position.y * width <= usize::MAX
    &&& byte_index(position.x as int, position.y as int, width as int, stride as int) + stride
        <= len
}

/// The index of byte `j` of pixel `(x, y)` in a buffer of rows `width` pixels long, `stride`
/// bytes per pixel.
pub open spec fn byte_at(x: int, y: int, j: int, width: int, stride: int) -> int {
    byte_index(x, y, width, stride) + j
}

/// Filling with a color wider than one byte paints exactly the rectangle asked for: where the
/// rectangle fits in a row, byte `j` of pixel `(x, y)` becomes byte `j` of the color when
/// `position.x <= x < position.x + size.width` and `position.y <= y < position.y + size.height`,
/// and keeps its value otherwise. `before` and `after` are the buffer before and after `fill`.
pub proof fn lemma_wide_fill_rect(
    color: PixelColor,
    before: Seq<u8>,
    after: Seq<u8>,
    dst_width: usize,
    position: PositionU,
    size: Size,
)
    requires
        !(color is One),
        position.x + size.width <= dst_width,
        after.len() == before.len(),
        forall|k: int|
            0 <= k < before.len() ==> #[trigger] after[k] == if in_rows(
                k / (color.bytes().len() as int),
                position.x as int,
                color.first_row(position) as int,
                size.height as int,
                size.width as int,
                dst_width as int,
            ) {
                color.bytes()[k % (color.bytes().len() as int)]
            } else {
                before[k]
            },
    ensures
        forall|x: int, y: int, j: int|
            0 <= x < dst_width && 0 <= y && 0 <= j < color.bytes().len() && byte_at(
                x,
                y,
                j,
                dst_width as int,
                color.bytes().len() as int,
            ) < before.len() ==> #[trigger] after[byte_at(
                x,
                y,
                j,
                dst_width as int,
                color.bytes().len() as int,
            )] == if position.x <= x < position.x + size.width && position.y <= y < position.y
                + size.height {
                color.bytes()[j]
            } else {
                before[byte_at(x, y, j, dst_width as int, color.bytes().len() as int)]
            },
{
    let s = color.bytes().len() as int;
    let w = dst_width as int;
    assert(s >= 2);
    assert forall|x: int, y: int, j: int|
        0 <= x < dst_width && 0 <= y && 0 <= j < s && byte_at(x, y, j, w, s) < before.len() implies #[trigger] after[byte_at(
        x,
        y,
        j,
        w,
        s,
    )] == if position.x <= x < position.x + size.width && position.y <= y < position.y
        + size.height {
        color.bytes()[j]
    } else {
        before[byte_at(x, y, j, w, s)]
    } by {
        let p = x + y * w;
        let k = byte_at(x, y, j, w, s);
        assert(0 <= p) by (nonlinear_arith)
            requires
                0 <= x,
                0 <= y,
                0 <= w,
                p == x + y * w,
        ;
        assert(p * s <= k < p * s + s);
        lemma_byte_of_pixel(k, p, s);
        assert(0 <= k) by (nonlinear_arith)
            requires
                0 <= p,
                0 <= j,
                s > 0,
                k == p * s + j,
        ;
        lemma_in_rows_rect(
            x,
            y,
            position.x as int,
            position.y as int,
            size.height as int,
            size.width as int,
            w,
        );
        assert(after[k] == if in_rows(
            k / s,
            position.x as int,
            color.first_row(position) as int,
            size.height as int,
            size.width as int,
            w,
        ) {
            color.bytes()[k % s]
        } else {
            before[k]
        });
    }
}

impl PixelColor {
    /// The bytes of the color.
    pub open spec fn bytes(self) -> Seq<u8> {
        match self {
            PixelColor::One(c) => seq![c],
            PixelColor::Two(c) => c@,
            PixelColor::Three(c) => c@,
            PixelColor::Four(c) => c@,
            PixelColor::Twelve(c) => c@,
            PixelColor::Sixteen(c) => c@,
        }
    }

    /// Returns the pixel color at `position` in `src`, a buffer of rows `width` pixels long.
    pub fn at_position(position: PositionU, width: usize, pixel_type: &PixelType, src: &[u8]) -> (c:
        Self)
        requires
            pixel_readable(position, width, pixel_type.blittle.spec_stride(), src@.len() as int),
        ensures
            ({
                let stride = pixel_type.blittle.spec_stride() as int;
                let i = byte_index(position.x as int, position.y as int, width as int, stride);
                c.bytes() == src@.subrange(i, i + stride)
            }),
    {
        let stride = pixel_type.blittle.stride();
        let n = src.len();
        let i = get_index(position.x, position.y, width, stride);
        let ghost want = src@.subrange(i as int, i + stride);
        match &pixel_type.blittle {
            SurfacePixelType::Gr8 => {
                let c = Self::One(src[i]);
                assert(c.bytes() =~= want);
                c
            },
            SurfacePixelType::GrA8 => {
                let c = Self::Two([src[i], src[i + 1]]);
                assert(c.bytes() =~= want);
                c
            },
            SurfacePixelType::Rgb8 => {
                let c = Self::Three([src[i], src[i + 1], src[i + 2]]);
                assert(c.bytes() =~= want);
                c
            },
            SurfacePixelType::Rgba8 | SurfacePixelType::Gr32 => {
                let c = Self::Four([src[i], src[i + 1], src[i + 2], src[i + 3]]);
                assert(c.bytes() =~= want);
                c
            },
            SurfacePixelType::Rgb32 => {
                let c = Self::Twelve(
                    [
                        src[i],
                        src[i + 1],
                        src[i + 2],
                        src[i + 3],
                        src[i + 4],
                        src[i + 5],
                        src[i + 6],
                        src[i + 7],
                        src[i + 8],
                        src[i + 9],
                        src[i + 10],
                        src[i + 11],
                    ],
                );
                assert(c.bytes() =~= want);
                c
            },
            SurfacePixelType::Rgba32 => {
                let c = Self::Sixteen(
                    [
                        src[i],
                        src[i + 1],
                        src[i + 2],
                        src[i + 3],
                        src[i + 4],
                        src[i + 5],
                        src[i + 6],
                        src[i + 7],
                        src[i + 8],
                        src[i + 9],
                        src[i + 10],
                        src[i + 11],
                        src[i + 12],
                        src[i + 13],
                        src[i + 14],
                        src[i + 15],
                    ],
                );
                assert(c.bytes() =~= want);
                c
            },
        }
    }

    /// The first row that `fill` paints: a one-byte color starts at row 0, wider colors at
    /// `position.y`.
    pub open spec fn first_row(self, position: PositionU) -> usize {
        match self {
            PixelColor::One(_) => 0,
            _ => position.y,
        }
    }

    /// `fill` can run: a buffer of wider pixels is a whole number of pixels long, the rows
    /// it fills lie in the buffer, and the row arithmetic fits in `usize`.
    pub open spec fn fits(self, len: int, dst_width: usize, position: PositionU, size: Size) -> bool {
        let s = self.bytes().len();
        let y0 = self.first_row(position);
        &&& !(self is One) ==> len % (s as int) == 0
        &&& y0 + size.height <= usize::MAX
        &&& size.height > 0 ==> (position.x + (y0 + size.height - 1) * dst_width + size.width) * s
            <= len
    }

    /// Fill `size.height` rows of `size.width` pixels, starting at `position`, of `dst`, a buffer of
    /// rows `dst_width` pixels long. A one-byte color fills the rows from row 0 on.
    pub fn fill(&self, dst: &mut [u8], dst_width: usize, position: PositionU, size: Size)
        requires
            self.fits(old(dst)@.len() as int, dst_width, position, size),
        ensures
            final(dst)@.len() == old(dst)@.len(),
            forall|k: int|
                0 <= k < old(dst)@.len() ==> #[trigger] final(dst)@[k] == if in_rows(
                    k / (self.bytes().len() as int),
                    position.x as int,
                    self.first_row(position) as int,
                    size.height as int,
                    size.width as int,
                    dst_width as int,
                ) {
                    self.bytes()[k % (self.bytes().len() as int)]
                } else {
                    old(dst)@[k]
                },
            !(*self is One) && position.x + size.width <= dst_width ==> forall|x: int, y: int, j: int|
                0 <= x < dst_width && 0 <= y && 0 <= j < self.bytes().len() && byte_at(
                    x,
                    y,
                    j,
                    dst_width as int,
                    self.bytes().len() as int,
                ) < old(dst)@.len() ==> #[trigger] final(dst)@[byte_at(
                    x,
                    y,
                    j,
                    dst_width as int,
                    self.bytes().len() as int,
                )] == if position.x <= x < position.x + size.width && position.y <= y < position.y
                    + size.height {
                    self.bytes()[j]
                } else {
                    old(dst)@[byte_at(x, y, j, dst_width as int, self.bytes().len() as int)]
                },
    {
        let ghost before = dst@;
        match *self {
            Self::One(color) => {
                let c = [color];
                assert(c@ =~= self.bytes());
                fill_rows(dst, c.as_slice(), dst_width, position.x, 0, size.height, size.width);
            },
            Self::Two(color) => {
                fill_rows(dst, color.as_slice(), dst_width, position.x, position.y, size.height, size.width);
            },
            Self::Three(color) => {
                fill_rows(dst, color.as_slice(), dst_width, position.x, position.y, size.height, size.width);
            },
            Self::Four(color) => {
                fill_rows(dst, color.as_slice(), dst_width, position.x, position.y, size.height, size.width);
            },
            Self::Twelve(color) => {
                fill_rows(dst, color.as_slice(), dst_width, position.x, position.y, size.height, size.width);
            },
            Self::Sixteen(color) => {
                fill_rows(dst, color.as_slice(), dst_width, position.x, position.y, size.height, size.width);
            },
        }
        proof {
            if !(*self is One) && position.x + size.width <= dst_width {
                lemma_wide_fill_rect(*self, before, dst@, dst_width, position, size);
            }
        }
    }
}

} // verus!
