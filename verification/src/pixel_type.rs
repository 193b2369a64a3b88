use crate::error::NineSliceError;
use vstd::prelude::*;

verus! {

/// The pixel layouts of `fast_image_resize` images.
#[derive(Copy, Clone, Debug, PartialEq, Eq, Structural)]
pub enum ResizePixelType {
    U8,
    U8x2,
    U8x3,
    U8x4,
    U16,
    U16x2,
    U16x3,
    U16x4,
    I32,
    F32,
    F32x2,
    F32x3,
    F32x4,
    /// A layout this library does not know of.
    Unknown,
}

/// The pixel layouts a blittable surface can hold.
#[derive(Copy, Clone, Debug, PartialEq, Eq, Structural)]
pub enum SurfacePixelType {
    /// 8-bit grayscale.
    Gr8,
    /// 8-bit grayscale + alpha.
    GrA8,
    /// 8-bit red, green, blue.
    Rgb8,
    /// 8-bit red, green, blue, alpha.
    Rgba8,
    /// 32-bit grayscale.
    Gr32,
    /// 32-bit red, green, blue.
    Rgb32,
    /// 32-bit red, green, blue, alpha.
    Rgba32,
}

/// Color types of png files.
#[derive(Copy, Clone, Debug, PartialEq, Eq, Structural)]
pub enum PngColorType {
    Grayscale,
    Rgb,
    Indexed,
    GrayscaleAlpha,
    Rgba,
}

/// Bit depths of png files.
#[derive(Copy, Clone, Debug, PartialEq, Eq, Structural)]
pub enum PngBitDepth {
    One,
    Two,
    Four,
    Eight,
    Sixteen,
}

/// Pixel formats of decoded jpg files.
#[derive(Copy, Clone, Debug, PartialEq, Eq, Structural)]
pub enum JpgPixelFormat {
    L8,
    L16,
    RGB24,
    CMYK32,
}

/// Color types a jpg encoder takes.
#[derive(Copy, Clone, Debug, PartialEq, Eq, Structural)]
pub enum JpgColorType {
    Luma,
    Rgb,
    Rgba,
    Bgr,
    Bgra,
    Ycbcr,
    Cmyk,
    CmykAsYcck,
    Ycck,
}

/// Why a png pixel type is not supported.
#[derive(Copy, Clone, Debug, PartialEq, Eq, Structural)]
pub enum PngError {
    InvalidColorBitDepth(PngColorType, PngBitDepth),
    IndexedColorType,
}

/// Why a jpg pixel type is not supported.
#[derive(Copy, Clone, Debug, PartialEq, Eq, Structural)]
pub enum JpgError {
    JpgPixelFormat(JpgPixelFormat),
    JpgEncoderPixelFormat(ResizePixelType),
}

#[derive(Copy, Clone, Debug, PartialEq, Eq, Structural)]
pub struct PngPixelType {
    pub color_type: PngColorType,
    pub bit_depth: PngBitDepth,
}

/// Pixel types as expressed in different crates.
#[derive(Copy, Clone, Debug, PartialEq, Eq, Structural)]
pub struct PixelType {
    pub blittle: SurfacePixelType,
    pub fast_image_resize: ResizePixelType,
    pub png: Option<PngPixelType>,
}

impl ResizePixelType {
    /// The number of channels of a pixel: gray, gray + alpha, RGB or RGBA.
    pub open spec fn channels(self) -> int {
        match self {
            ResizePixelType::U8 | ResizePixelType::U16 | ResizePixelType::I32 | ResizePixelType::F32 => 1,
            ResizePixelType::U8x2 | ResizePixelType::U16x2 | ResizePixelType::F32x2 => 2,
            ResizePixelType::U8x3 | ResizePixelType::U16x3 | ResizePixelType::F32x3 => 3,
            ResizePixelType::U8x4 | ResizePixelType::U16x4 | ResizePixelType::F32x4 => 4,
            ResizePixelType::Unknown => 0,
        }
    }

    /// The number of bytes of one channel.
    pub open spec fn channel_bytes(self) -> int {
        match self {
            ResizePixelType::U8 | ResizePixelType::U8x2 | ResizePixelType::U8x3
            | ResizePixelType::U8x4 => 1,
            ResizePixelType::U16 | ResizePixelType::U16x2 | ResizePixelType::U16x3
            | ResizePixelType::U16x4 => 2,
            ResizePixelType::I32 | ResizePixelType::F32 | ResizePixelType::F32x2
            | ResizePixelType::F32x3 | ResizePixelType::F32x4 => 4,
            ResizePixelType::Unknown => 0,
        }
    }

    /// Whether a channel is a floating-point number.
    pub open spec fn float(self) -> bool {
        match self {
            ResizePixelType::F32 | ResizePixelType::F32x2 | ResizePixelType::F32x3
            | ResizePixelType::F32x4 => true,
            _ => false,
        }
    }
}

impl PngColorType {
    /// The number of channels of a pixel of this color type (an index for `Indexed`).
    pub open spec fn channels(self) -> int {
        match self {
            PngColorType::Grayscale | PngColorType::Indexed => 1,
            PngColorType::GrayscaleAlpha => 2,
            PngColorType::Rgb => 3,
            PngColorType::Rgba => 4,
        }
    }
}

impl SurfacePixelType {
    /// The number of channels of a pixel: gray, gray + alpha, RGB or RGBA.
    pub open spec fn channels(self) -> int {
        match self {
            SurfacePixelType::Gr8 | SurfacePixelType::Gr32 => 1,
            SurfacePixelType::GrA8 => 2,
            SurfacePixelType::Rgb8 | SurfacePixelType::Rgb32 => 3,
            SurfacePixelType::Rgba8 | SurfacePixelType::Rgba32 => 4,
        }
    }

    /// The number of bytes of one channel: 8-bit integers or 32-bit floats.
    pub open spec fn channel_bytes(self) -> int {
        match self {
            SurfacePixelType::Gr8 | SurfacePixelType::GrA8 | SurfacePixelType::Rgb8
            | SurfacePixelType::Rgba8 => 1,
            _ => 4,
        }
    }

    /// Whether a channel is a floating-point number.
    pub open spec fn float(self) -> bool {
        self.channel_bytes() == 4
    }

    /// The surface's pixels are laid out as those of `t`: as many channels, each as wide and of
    /// the same kind.
    pub open spec fn same_layout(self, t: ResizePixelType) -> bool {
        &&& self.channels() == t.channels()
        &&& self.channel_bytes() == t.channel_bytes()
        &&& self.float() == t.float()
    }

    /// The number of bytes of one pixel.
    pub open spec fn spec_stride(self) -> usize {
        match self {
            SurfacePixelType::Gr8 => 1,
            SurfacePixelType::GrA8 => 2,
            SurfacePixelType::Rgb8 => 3,
            SurfacePixelType::Rgba8 => 4,
            SurfacePixelType::Gr32 => 4,
            SurfacePixelType::Rgb32 => 12,
            SurfacePixelType::Rgba32 => 16,
        }
    }

    /// The number of bytes of one pixel.
    pub fn stride(&self) -> (s: usize)
        ensures
            s == self.spec_stride(),
    {
        match self {
            SurfacePixelType::Gr8 => 1,
            SurfacePixelType::GrA8 => 2,
            SurfacePixelType::Rgb8 => 3,
            SurfacePixelType::Rgba8 => 4,
            SurfacePixelType::Gr32 => 4,
            SurfacePixelType::Rgb32 => 12,
            SurfacePixelType::Rgba32 => 16,
        }
    }
}

/// The surface pixel type of each supported resize pixel type: the 8-bit layouts with one to
/// four channels and the 32-bit float layouts with one, three and four channels.
pub open spec fn surface_type_of(t: ResizePixelType) -> Option<SurfacePixelType> {
    match t {
        ResizePixelType::U8 => Some(SurfacePixelType::Gr8),
        ResizePixelType::U8x2 => Some(SurfacePixelType::GrA8),
        ResizePixelType::U8x3 => Some(SurfacePixelType::Rgb8),
        ResizePixelType::U8x4 => Some(SurfacePixelType::Rgba8),
        ResizePixelType::F32 => Some(SurfacePixelType::Gr32),
        ResizePixelType::F32x3 => Some(SurfacePixelType::Rgb32),
        ResizePixelType::F32x4 => Some(SurfacePixelType::Rgba32),
        _ => None,
    }
}

/// The png pixel type of each 8-bit surface pixel type.
pub open spec fn png_type_of(t: SurfacePixelType) -> Option<PngPixelType> {
    match t {
        SurfacePixelType::Gr8 => Some(
            PngPixelType { color_type: PngColorType::Grayscale, bit_depth: PngBitDepth::Eight },
        ),
        SurfacePixelType::GrA8 => Some(
            PngPixelType { color_type: PngColorType::GrayscaleAlpha, bit_depth: PngBitDepth::Eight },
        ),
        SurfacePixelType::Rgb8 => Some(
            PngPixelType { color_type: PngColorType::Rgb, bit_depth: PngBitDepth::Eight },
        ),
        SurfacePixelType::Rgba8 => Some(
            PngPixelType { color_type: PngColorType::Rgba, bit_depth: PngBitDepth::Eight },
        ),
        _ => None,
    }
}

/// The resize pixel type of an 8-bit png color type.
pub open spec fn resize_type_of_png(color_type: PngColorType) -> Option<ResizePixelType> {
    match color_type {
        PngColorType::Grayscale => Some(ResizePixelType::U8),
        PngColorType::GrayscaleAlpha => Some(ResizePixelType::U8x2),
        PngColorType::Rgb => Some(ResizePixelType::U8x3),
        PngColorType::Rgba => Some(ResizePixelType::U8x4),
        PngColorType::Indexed => None,
    }
}

impl PixelType {
    /// The pixel type of an image whose `fast_image_resize` pixel type is `t`.
    pub open spec fn spec_from_resize(t: ResizePixelType) -> Result<PixelType, NineSliceError> {
        match surface_type_of(t) {
            Some(s) => Ok(PixelType { blittle: s, fast_image_resize: t, png: png_type_of(s) }),
            None => Err(NineSliceError::UnsupportedPixelType(t)),
        }
    }

    /// The pixel type of an image whose `fast_image_resize` pixel type is `fast_image_resize`.
    pub fn new(fast_image_resize: ResizePixelType) -> (r: Result<Self, NineSliceError>)
        ensures
            r == Self::spec_from_resize(fast_image_resize),
            r matches Ok(p) ==> p.fast_image_resize == fast_image_resize && p.blittle.same_layout(
                fast_image_resize,
            ) && (p.png is Some <==> fast_image_resize.channel_bytes() == 1) && (p.png matches Some(
                q,
            ) ==> q.bit_depth == PngBitDepth::Eight && q.color_type != PngColorType::Indexed
                && q.color_type.channels() == fast_image_resize.channels()),
            r is Err ==> forall|s: SurfacePixelType| !#[trigger] s.same_layout(fast_image_resize),
    {
        let blittle = match Self::get_blittle_pixel_type(fast_image_resize) {
            Ok(blittle) => blittle,
            Err(e) => {
                return Err(e);
            },
        };
        Ok(Self { blittle, fast_image_resize, png: Self::get_png_pixel_type(blittle) })
    }

    /// Derive the pixel type from a png `ColorType` and `BitDepth`.
    /// Some combinations of `ColorType` and `BitDepth` are not allowed.
    pub fn from_png(color_type: &PngColorType, bit_depth: &PngBitDepth) -> (r: Result<
        Self,
        NineSliceError,
    >)
        ensures
            *color_type == PngColorType::Indexed ==> r == Err::<PixelType, NineSliceError>(
                NineSliceError::Png(PngError::IndexedColorType),
            ),
            *color_type != PngColorType::Indexed && *bit_depth != PngBitDepth::Eight ==> r == Err::<
                PixelType,
                NineSliceError,
            >(NineSliceError::Png(PngError::InvalidColorBitDepth(*color_type, *bit_depth))),
            *color_type != PngColorType::Indexed && *bit_depth == PngBitDepth::Eight ==> ({
                let t = resize_type_of_png(*color_type)->Some_0;
                r == Ok::<PixelType, NineSliceError>(
                    PixelType {
                        fast_image_resize: t,
                        blittle: surface_type_of(t)->Some_0,
                        png: Some(PngPixelType { color_type: *color_type, bit_depth: *bit_depth }),
                    },
                )
            }),
            *color_type != PngColorType::Indexed && *bit_depth == PngBitDepth::Eight ==> (r matches Ok(
                p,
            ) && p.fast_image_resize.channels() == color_type.channels()
                && p.fast_image_resize.channel_bytes() == 1 && !p.fast_image_resize.float()
                && p.blittle.same_layout(p.fast_image_resize) && p.png == Some(
                PngPixelType { color_type: *color_type, bit_depth: *bit_depth },
            )),
    {
        let pixel_type = match color_type {
            PngColorType::Grayscale => ResizePixelType::U8,
            PngColorType::GrayscaleAlpha => ResizePixelType::U8x2,
            PngColorType::Rgb => ResizePixelType::U8x3,
            PngColorType::Rgba => ResizePixelType::U8x4,
            PngColorType::Indexed => {
                return Err(NineSliceError::Png(PngError::IndexedColorType));
            },
        };
        let fast_image_resize = match bit_depth {
            PngBitDepth::Eight => pixel_type,
            _ => {
                return Err(
                    NineSliceError::Png(PngError::InvalidColorBitDepth(*color_type, *bit_depth)),
                );
            },
        };
        let blittle = match Self::get_blittle_pixel_type(fast_image_resize) {
            Ok(blittle) => blittle,
            Err(e) => {
                return Err(e);
            },
        };
        Ok(
            Self {
                fast_image_resize,
                blittle,
                png: Some(PngPixelType { color_type: *color_type, bit_depth: *bit_depth }),
            },
        )
    }

    /// The pixel type of decoded jpg pixels: 8-bit grayscale and 8-bit RGB are supported.
    pub fn from_jpg(pixel_format: JpgPixelFormat) -> (r: Result<Self, NineSliceError>)
        ensures
            pixel_format == JpgPixelFormat::L8 ==> r == Ok::<PixelType, NineSliceError>(
                PixelType {
                    fast_image_resize: ResizePixelType::U8,
                    blittle: SurfacePixelType::Gr8,
                    png: Some(
                        PngPixelType {
                            color_type: PngColorType::Grayscale,
                            bit_depth: PngBitDepth::Eight,
                        },
                    ),
                },
            ),
            pixel_format == JpgPixelFormat::RGB24 ==> r == Ok::<PixelType, NineSliceError>(
                PixelType {
                    fast_image_resize: ResizePixelType::U8x3,
                    blittle: SurfacePixelType::Rgb8,
                    png: Some(
                        PngPixelType { color_type: PngColorType::Rgb, bit_depth: PngBitDepth::Eight },
                    ),
                },
            ),
            pixel_format != JpgPixelFormat::L8 && pixel_format != JpgPixelFormat::RGB24 ==> r
                == Err::<PixelType, NineSliceError>(
                NineSliceError::Jpg(JpgError::JpgPixelFormat(pixel_format)),
            ),
    {
        match pixel_format {
            JpgPixelFormat::L8 => Ok(
                Self {
                    fast_image_resize: ResizePixelType::U8,
                    blittle: SurfacePixelType::Gr8,
                    png: Some(
                        PngPixelType {
                            color_type: PngColorType::Grayscale,
                            bit_depth: PngBitDepth::Eight,
                        },
                    ),
                },
            ),
            JpgPixelFormat::RGB24 => Ok(
                Self {
                    fast_image_resize: ResizePixelType::U8x3,
                    blittle: SurfacePixelType::Rgb8,
                    png: Some(
                        PngPixelType { color_type: PngColorType::Rgb, bit_depth: PngBitDepth::Eight },
                    ),
                },
            ),
            other => Err(NineSliceError::Jpg(JpgError::JpgPixelFormat(other))),
        }
    }

    pub fn get_blittle_pixel_type(pixel_type: ResizePixelType) -> (r: Result<
        SurfacePixelType,
        NineSliceError,
    >)
        ensures
            r == match surface_type_of(pixel_type) {
                Some(s) => Ok::<SurfacePixelType, NineSliceError>(s),
                None => Err(NineSliceError::UnsupportedPixelType(pixel_type)),
            },
            r matches Ok(s) ==> s.same_layout(pixel_type),
            r is Err ==> r == Err::<SurfacePixelType, NineSliceError>(
                NineSliceError::UnsupportedPixelType(pixel_type),
            ) && forall|s: SurfacePixelType| !#[trigger] s.same_layout(pixel_type),
    {
        match pixel_type {
            ResizePixelType::U8 => Ok(SurfacePixelType::Gr8),
            ResizePixelType::U8x2 => Ok(SurfacePixelType::GrA8),
            ResizePixelType::U8x3 => Ok(SurfacePixelType::Rgb8),
            ResizePixelType::U8x4 => Ok(SurfacePixelType::Rgba8),
            ResizePixelType::F32 => Ok(SurfacePixelType::Gr32),
            ResizePixelType::F32x3 => Ok(SurfacePixelType::Rgb32),
            ResizePixelType::F32x4 => Ok(SurfacePixelType::Rgba32),
            other => Err(NineSliceError::UnsupportedPixelType(other)),
        }
    }

    /// Get a `PngPixelType` from a surface pixel type.
    /// Some surface pixel types are not allowed.
    pub fn get_png_pixel_type(pixel_type: SurfacePixelType) -> (r: Option<PngPixelType>)
        ensures
            r == png_type_of(pixel_type),
            r is Some <==> pixel_type.channel_bytes() == 1,
            r matches Some(p) ==> p.bit_depth == PngBitDepth::Eight && p.color_type
                != PngColorType::Indexed && p.color_type.channels() == pixel_type.channels(),
    {
        match pixel_type {
            SurfacePixelType::Gr8 => Some(
                PngPixelType { color_type: PngColorType::Grayscale, bit_depth: PngBitDepth::Eight },
            ),
            SurfacePixelType::GrA8 => Some(
                PngPixelType {
                    color_type: PngColorType::GrayscaleAlpha,
                    bit_depth: PngBitDepth::Eight,
                },
            ),
            SurfacePixelType::Rgb8 => Some(
                PngPixelType { color_type: PngColorType::Rgb, bit_depth: PngBitDepth::Eight },
            ),
            SurfacePixelType::Rgba8 => Some(
                PngPixelType { color_type: PngColorType::Rgba, bit_depth: PngBitDepth::Eight },
            ),
            _ => None,
        }
    }

    /// The jpg encoder color type of an 8-bit grayscale or RGB pixel type.
    pub fn get_jpg_encoder_color_type(pixel_type: ResizePixelType) -> (r: Result<
        JpgColorType,
        JpgError,
    >)
        ensures
            pixel_type == ResizePixelType::U8 ==> r == Ok::<JpgColorType, JpgError>(
                JpgColorType::Luma,
            ),
            pixel_type == ResizePixelType::U8x3 ==> r == Ok::<JpgColorType, JpgError>(
                JpgColorType::Rgb,
            ),
            pixel_type != ResizePixelType::U8 && pixel_type != ResizePixelType::U8x3 ==> r == Err::<
                JpgColorType,
                JpgError,
            >(JpgError::JpgEncoderPixelFormat(pixel_type)),
    {
        match pixel_type {
            ResizePixelType::U8 => Ok(JpgColorType::Luma),
            ResizePixelType::U8x3 => Ok(JpgColorType::Rgb),
            other => Err(JpgError::JpgEncoderPixelFormat(other)),
        }
    }
}

/// A resize pixel type maps to the surface pixel type laid out as it is (as many channels, each
/// as wide and of the same kind), and to none exactly when no surface pixel type is laid out so.
pub proof fn lemma_surface_type_same_layout(t: ResizePixelType)
    ensures
        surface_type_of(t) matches Some(s) ==> s.same_layout(t),
        surface_type_of(t) is None ==> forall|s: SurfacePixelType| !#[trigger] s.same_layout(t),
{
}

/// An 8-bit surface pixel type, and only such, has a png pixel type: 8 bits deep, not indexed, and
/// with as many channels as the surface's pixels.
pub proof fn lemma_png_type_channels(t: SurfacePixelType)
    ensures
        png_type_of(t) is Some <==> t.channel_bytes() == 1,
        png_type_of(t) matches Some(p) ==> p.bit_depth == PngBitDepth::Eight && p.color_type
            != PngColorType::Indexed && p.color_type.channels() == t.channels(),
{
}

/// A png color type, but an indexed one, maps to the 8-bit integer resize pixel type with as many
/// channels, and that type to a surface pixel type laid out as it is.
pub proof fn lemma_png_resize_channels(c: PngColorType)
    ensures
        resize_type_of_png(c) is Some <==> c != PngColorType::Indexed,
        resize_type_of_png(c) matches Some(t) ==> (t.channels() == c.channels() && t.channel_bytes()
            == 1 && !t.float() && (surface_type_of(t) matches Some(s) && s.same_layout(t))),
{
}

/// The pixel type of an image keeps its resize pixel type, takes the surface pixel type laid out
/// as it is, and a png pixel type with as many channels exactly when the channels are 8-bit.
pub proof fn lemma_pixel_type_layout(t: ResizePixelType)
    ensures
        PixelType::spec_from_resize(t) matches Ok(p) ==> p.fast_image_resize == t && p.blittle.same_layout(
            t,
        ) && (p.png is Some <==> t.channel_bytes() == 1) && (p.png matches Some(q) ==> q.bit_depth
            == PngBitDepth::Eight && q.color_type != PngColorType::Indexed && q.color_type.channels()
            == t.channels()),
        PixelType::spec_from_resize(t) is Err <==> forall|s: SurfacePixelType| !#[trigger] s.same_layout(t),
{
    if PixelType::spec_from_resize(t) is Err {
    } else {
        let s = surface_type_of(t)->Some_0;
        assert(s.same_layout(t));
    }
}

/// A surface pixel is as many bytes long as its channels take: channels times channel width.
pub proof fn lemma_stride_of_channels(t: SurfacePixelType)
    ensures
        t.spec_stride() == t.channels() * t.channel_bytes(),
{
}

} // verus!
