use crate::geometry::{PositionU, Size};
use crate::pixel_bytes::{byte_index, get_index};
use crate::pixel_color::pixel_readable;
use crate::pixel_type::{PixelType, SurfacePixelType};
use vstd::arithmetic::div_mod::lemma_fundamental_div_mod_converse;
use vstd::prelude::*;

verus! {

/// A color of each surface pixel type, as bytes.
#[derive(Clone, Eq, PartialEq, Debug)]
pub enum FillColor {
    Gr8(u8),
    GrA8([u8; 2]),
    Rgb8([u8; 3]),
    Rgba8([u8; 4]),
    Gr32([u8; 4]),
    Rgb32([u8; 12]),
    Rgba32([u8; 16]),
}

impl FillColor {
    /// The bytes of the color.
    pub open spec fn bytes(self) -> Seq<u8> {
        match self {
            FillColor::Gr8(c) => seq![c],
            FillColor::GrA8(c) => c@,
            FillColor::Rgb8(c) => c@,
            FillColor::Rgba8(c) => c@,
            FillColor::Gr32(c) => c@,
            FillColor::Rgb32(c) => c@,
            FillColor::Rgba32(c) => c@,
        }
    }

    /// The surface pixel type the color is of.
    pub open spec fn pixel_type(self) -> SurfacePixelType {
        match self {
            FillColor::Gr8(_) => SurfacePixelType::Gr8,
            FillColor::GrA8(_) => SurfacePixelType::GrA8,
            FillColor::Rgb8(_) => SurfacePixelType::Rgb8,
            FillColor::Rgba8(_) => SurfacePixelType::Rgba8,
            FillColor::Gr32(_) => SurfacePixelType::Gr32,
            FillColor::Rgb32(_) => SurfacePixelType::Rgb32,
            FillColor::Rgba32(_) => SurfacePixelType::Rgba32,
        }
    }

    /// The color of the pixel at `position` in `src`, a buffer of rows `width` pixels long.
    pub fn from_pixel(position: PositionU, width: usize, pixel_type: &PixelType, src: &[u8]) -> (c:
        Self)
        requires
            pixel_readable(position, width, pixel_type.blittle.spec_stride(), src@.len() as int),
        ensures
            c.pixel_type() == pixel_type.blittle,
            ({
                let stride = pixel_type.blittle.spec_stride() as int;
                let i = byte_index(position.x as int, position.y as int, width as int, stride);
                c.bytes() == src@.subrange(i, i + stride)
            }),
    {
        let stride = pixel_type.blittle.stride();
        let n = src.len();
        let i = get_index(position.x, position.y, width, stride);
        let ghost want = src@.subrange(i as int, i + stride);
        match &pixel_type.blittle {
            SurfacePixelType::Gr8 => {
                let c = Self::Gr8(src[i]);
                assert(c.bytes() =~= want);
                c
            },
            SurfacePixelType::GrA8 => {
                let c = Self::GrA8([src[i], src[i + 1]]);
                assert(c.bytes() =~= want);
                c
            },
            SurfacePixelType::Rgb8 => {
                let c = Self::Rgb8([src[i], src[i + 1], src[i + 2]]);
                assert(c.bytes() =~= want);
                c
            },
            SurfacePixelType::Rgba8 => {
                let c = Self::Rgba8([src[i], src[i + 1], src[i + 2], src[i + 3]]);
                assert(c.bytes() =~= want);
                c
            },
            SurfacePixelType::Gr32 => {
                let c = Self::Gr32([src[i], src[i + 1], src[i + 2], src[i + 3]]);
                assert(c.bytes() =~= want);
                c
            },
            SurfacePixelType::Rgb32 => {
                let c = Self::Rgb32(
                    [
                        src[i],
                        src[i + 1],
                        src[i + 2],
                        src[i + 3],
                        src[i + 4],
                        src[i + 5],
                        src[i + 6],
                        src[i + 7],
                        src[i + 8],
                        src[i + 9],
                        src[i + 10],
                        src[i + 11],
                    ],
                );
                assert(c.bytes() =~= want);
                c
            },
            SurfacePixelType::Rgba32 => {
                let c = Self::Rgba32(
                    [
                        src[i],
                        src[i + 1],
                        src[i + 2],
                        src[i + 3],
                        src[i + 4],
                        src[i + 5],
                        src[i + 6],
                        src[i + 7],
                        src[i + 8],
                        src[i + 9],
                        src[i + 10],
                        src[i + 11],
                        src[i + 12],
                        src[i + 13],
                        src[i + 14],
                        src[i + 15],
                    ],
                );
                assert(c.bytes() =~= want);
                c
            },
        }
    }

    /// A bitmap of `size` pixels of this color: `size.width * size.height` pixels, each the
    /// color's bytes.
    pub fn get_filled(&self, size: Size) -> (v: Vec<u8>)
        requires
            size.width * size.height * self.bytes().len() <= usize::MAX,
        ensures
            v@.len() == size.width * size.height * self.bytes().len(),
            forall|k: int|
                0 <= k < v@.len() ==> #[trigger] v@[k] == self.bytes()[k % (self.bytes().len() as int)],
    {
        let (color, stride): ([u8; 16], usize) = match self {
            Self::Gr8(c) => ([*c, 0, 0, 0, 0, 0, 0, 0, 0, 0, 0, 0, 0, 0, 0, 0], 1),
            Self::GrA8(c) => ([c[0], c[1], 0, 0, 0, 0, 0, 0, 0, 0, 0, 0, 0, 0, 0, 0], 2),
            Self::Rgb8(c) => ([c[0], c[1], c[2], 0, 0, 0, 0, 0, 0, 0, 0, 0, 0, 0, 0, 0], 3),
            Self::Rgba8(c) | Self::Gr32(c) => (
                [c[0], c[1], c[2], c[3], 0, 0, 0, 0, 0, 0, 0, 0, 0, 0, 0, 0],
                4,
            ),
            Self::Rgb32(c) => (
                [c[0], c[1], c[2], c[3], c[4], c[5], c[6], c[7], c[8], c[9], c[10], c[11], 0, 0, 0, 0],
                12,
            ),
            Self::Rgba32(c) => (
                [
                    c[0],
                    c[1],
                    c[2],
                    c[3],
                    c[4],
                    c[5],
                    c[6],
                    c[7],
                    c[8],
                    c[9],
                    c[10],
                    c[11],
                    c[12],
                    c[13],
                    c[14],
                    c[15],
                ],
                16,
            ),
        };
        let ghost bytes = self.bytes();
        assert(stride == bytes.len());
        assert(forall|j: int| 0 <= j < stride ==> color@[j] == bytes[j]);
        assert(size.width * size.height <= size.width * size.height * stride) by (nonlinear_arith)
            requires
                stride >= 1,
        ;
        let n = size.width * size.height * stride;
        let mut v: Vec<u8> = Vec::with_capacity(n);
        let mut j: usize = 0;
        let mut k: usize = 0;
        while k < n
            invariant
                k <= n,
                v@.len() == k,
                0 < stride <= 16,
                stride == bytes.len(),
                j == (k as int) % (stride as int),
                forall|jj: int| 0 <= jj < stride ==> color@[jj] == bytes[jj],
                forall|kk: int| 0 <= kk < k ==> #[trigger] v@[kk] == bytes[kk % (stride as int)],
            decreases n - k,
        {
            proof {
                vstd::arithmetic::div_mod::lemma_fundamental_div_mod(k as int, stride as int);
                vstd::arithmetic::div_mod::lemma_mod_bound(k as int, stride as int);
            }
            v.push(color[j]);
            proof {
                let q = k as int / stride as int;
                let si = stride as int;
                assert(k == si * q + j);
                if j + 1 == stride {
                    assert(k + 1 == (q + 1) * si) by (nonlinear_arith)
                        requires
                            k == si * q + j,
                            j + 1 == si,
                    ;
                    lemma_fundamental_div_mod_converse(k + 1, si, q + 1, 0);
                } else {
                    assert(k + 1 == q * si + (j + 1)) by (nonlinear_arith)
                        requires
                            k == si * q + j,
                    ;
                    lemma_fundamental_div_mod_converse(k + 1, si, q, j + 1);
                }
            }
            j = if j + 1 == stride {
                0
            } else {
                j + 1
            };
            k = k + 1;
        }
        v
    }
}

/// Filling and reading back give the same color: where `filled` holds `size.width * size.height`
/// copies of `color`'s bytes (what `get_filled` returns), a color of the same pixel type whose
/// bytes are those of a pixel `(x, y)` of it (what `from_pixel` returns there) is `color`.
pub proof fn lemma_fill_round_trip(
    color: FillColor,
    size: Size,
    filled: Seq<u8>,
    x: int,
    y: int,
    read: FillColor,
)
    requires
        0 <= x < size.width,
        0 <= y < size.height,
        filled.len() == size.width * size.height * color.bytes().len(),
        forall|k: int|
            0 <= k < filled.len() ==> #[trigger] filled[k] == color.bytes()[k % (color.bytes().len() as int)],
        read.pixel_type() == color.pixel_type(),
        ({
            let stride = color.pixel_type().spec_stride() as int;
            let i = byte_index(x, y, size.width as int, stride);
            read.bytes() == filled.subrange(i, i + stride)
        }),
    ensures
        read == color,
{
    broadcast use vstd::array::group_array_axioms;
    let stride = color.pixel_type().spec_stride() as int;
    let (w, h) = (size.width as int, size.height as int);
    assert(color.bytes().len() == stride);
    let p = x + y * w;
    let i = byte_index(x, y, w, stride);
    assert(0 <= p < w * h) by (nonlinear_arith)
        requires
            0 <= x < w,
            0 <= y < h,
            p == x + y * w,
    ;
    assert(i == p * stride);
    assert(i + stride <= w * h * stride) by (nonlinear_arith)
        requires
            0 <= p < w * h,
            i == p * stride,
            stride > 0,
    ;
    assert forall|j: int| 0 <= j < stride implies #[trigger] read.bytes()[j] == color.bytes()[j] by {
        assert(filled[i + j] == color.bytes()[(i + j) % stride]);
        lemma_fundamental_div_mod_converse(i + j, stride, p, j);
    }
    assert(read.bytes() =~= color.bytes());
    match (read, color) {
        (FillColor::Gr8(a), FillColor::Gr8(b)) => {
            assert(read.bytes()[0] == color.bytes()[0]);
        },
        (FillColor::GrA8(a), FillColor::GrA8(b)) => {
            assert(a@ == b@);
            assert(a =~= b);
        },
        (FillColor::Rgb8(a), FillColor::Rgb8(b)) => {
            assert(a@ == b@);
            assert(a =~= b);
        },
        (FillColor::Rgba8(a), FillColor::Rgba8(b)) => {
            assert(a@ == b@);
            assert(a =~= b);
        },
        (FillColor::Gr32(a), FillColor::Gr32(b)) => {
            assert(a@ == b@);
            assert(a =~= b);
        },
        (FillColor::Rgb32(a), FillColor::Rgb32(b)) => {
            assert(a@ == b@);
            assert(a =~= b);
        },
        (FillColor::Rgba32(a), FillColor::Rgba32(b)) => {
            assert(a@ == b@);
            assert(a =~= b);
        },
        _ => {},
    }
}

/// A fill color holds exactly one pixel of its pixel type: as many bytes as that type's stride.
pub proof fn lemma_fill_color_is_one_pixel(color: FillColor)
    ensures
        color.bytes().len() == color.pixel_type().spec_stride(),
{
}

} // verus!
