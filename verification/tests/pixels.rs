use nine_slice::fill::FillColor;
use nine_slice::pixel_color::PixelColor;
use nine_slice::pixel_type::{
    JpgColorType, JpgError, JpgPixelFormat, PixelType, PngBitDepth, PngColorType, PngError,
    PngPixelType, ResizePixelType, SurfacePixelType,
};
use nine_slice::{NineSliceError, PositionU, Size};

fn rgb8() -> PixelType {
    PixelType::new(ResizePixelType::U8x3).unwrap()
}

#[test]
fn pixel_type_from_resize_pixel_type() {
    let t = rgb8();
    assert_eq!(t.blittle, SurfacePixelType::Rgb8);
    assert_eq!(t.fast_image_resize, ResizePixelType::U8x3);
    assert_eq!(
        t.png,
        Some(PngPixelType { color_type: PngColorType::Rgb, bit_depth: PngBitDepth::Eight })
    );
    let f = PixelType::new(ResizePixelType::F32x4).unwrap();
    assert_eq!(f.blittle, SurfacePixelType::Rgba32);
    assert_eq!(f.png, None);
    match PixelType::new(ResizePixelType::U16) {
        Err(NineSliceError::UnsupportedPixelType(t)) => assert_eq!(t, ResizePixelType::U16),
        _ => panic!("expected UnsupportedPixelType"),
    }
}

#[test]
fn pixel_type_from_png() {
    let t = PixelType::from_png(&PngColorType::GrayscaleAlpha, &PngBitDepth::Eight).unwrap();
    assert_eq!(t.fast_image_resize, ResizePixelType::U8x2);
    assert_eq!(t.blittle, SurfacePixelType::GrA8);
    match PixelType::from_png(&PngColorType::Rgba, &PngBitDepth::Sixteen) {
        Err(NineSliceError::Png(PngError::InvalidColorBitDepth(c, d))) => {
            assert_eq!((c, d), (PngColorType::Rgba, PngBitDepth::Sixteen))
        }
        _ => panic!("expected InvalidColorBitDepth"),
    }
    match PixelType::from_png(&PngColorType::Indexed, &PngBitDepth::Eight) {
        Err(NineSliceError::Png(PngError::IndexedColorType)) => {}
        _ => panic!("expected IndexedColorType"),
    }
}

#[test]
fn pixel_type_from_jpg() {
    let t = PixelType::from_jpg(JpgPixelFormat::L8).unwrap();
    assert_eq!(t.blittle, SurfacePixelType::Gr8);
    assert_eq!(t.fast_image_resize, ResizePixelType::U8);
    let t = PixelType::from_jpg(JpgPixelFormat::RGB24).unwrap();
    assert_eq!(t.blittle, SurfacePixelType::Rgb8);
    match PixelType::from_jpg(JpgPixelFormat::CMYK32) {
        Err(NineSliceError::Jpg(JpgError::JpgPixelFormat(f))) => {
            assert_eq!(f, JpgPixelFormat::CMYK32)
        }
        _ => panic!("expected JpgPixelFormat"),
    }
    assert_eq!(
        PixelType::get_jpg_encoder_color_type(ResizePixelType::U8),
        Ok(JpgColorType::Luma)
    );
    assert_eq!(
        PixelType::get_jpg_encoder_color_type(ResizePixelType::U8x4),
        Err(JpgError::JpgEncoderPixelFormat(ResizePixelType::U8x4))
    );
}

#[test]
fn strides() {
    assert_eq!(SurfacePixelType::Gr8.stride(), 1);
    assert_eq!(SurfacePixelType::Gr32.stride(), 4);
    assert_eq!(SurfacePixelType::Rgb32.stride(), 12);
    assert_eq!(SurfacePixelType::Rgba32.stride(), 16);
}

#[test]
fn color_at_position() {
    // 3x2 RGB8 bitmap whose bytes count up from 0.
    let src: Vec<u8> = (0u8..18).collect();
    let c = PixelColor::at_position(PositionU { x: 1, y: 1 }, 3, &rgb8(), &src);
    assert_eq!(c, PixelColor::Three([12, 13, 14]));
    let gray = PixelType::new(ResizePixelType::U8).unwrap();
    assert_eq!(PixelColor::at_position(PositionU { x: 2, y: 1 }, 3, &gray, &src), PixelColor::One(5));
    let f = PixelType::new(ResizePixelType::F32).unwrap();
    assert_eq!(
        PixelColor::at_position(PositionU { x: 0, y: 1 }, 2, &f, &src),
        PixelColor::Four([8, 9, 10, 11])
    );
}

#[test]
fn fill_color_from_pixel() {
    let src: Vec<u8> = (0u8..18).collect();
    assert_eq!(
        FillColor::from_pixel(PositionU { x: 2, y: 0 }, 3, &rgb8(), &src),
        FillColor::Rgb8([6, 7, 8])
    );
    let f = PixelType::new(ResizePixelType::F32).unwrap();
    assert_eq!(
        FillColor::from_pixel(PositionU { x: 0, y: 1 }, 2, &f, &src),
        FillColor::Gr32([8, 9, 10, 11])
    );
}

#[test]
fn filled_bitmaps() {
    let v = FillColor::Rgb8([1, 2, 3]).get_filled(Size { width: 2, height: 2 });
    assert_eq!(v, vec![1, 2, 3, 1, 2, 3, 1, 2, 3, 1, 2, 3]);
    let v = FillColor::Gr8(9).get_filled(Size { width: 3, height: 1 });
    assert_eq!(v, vec![9, 9, 9]);
    assert!(FillColor::Rgba32([0; 16]).get_filled(Size { width: 0, height: 5 }).is_empty());
}

#[test]
fn fill_rows_of_wide_pixels() {
    // A 3x3 bitmap of two-byte pixels; fill a 2x2 square at (1, 1).
    let mut dst = vec![0u8; 18];
    PixelColor::Two([7, 8]).fill(&mut dst, 3, PositionU { x: 1, y: 1 }, Size { width: 2, height: 2 });
    assert_eq!(dst, vec![0, 0, 0, 0, 0, 0, 0, 0, 7, 8, 7, 8, 0, 0, 7, 8, 7, 8]);
}

#[test]
fn fill_rows_of_single_bytes_start_at_the_top() {
    // A one-byte color fills from row 0 on, whatever the position's row.
    let mut dst = vec![0u8; 9];
    PixelColor::One(5).fill(&mut dst, 3, PositionU { x: 1, y: 2 }, Size { width: 2, height: 2 });
    assert_eq!(dst, vec![0, 5, 5, 0, 5, 5, 0, 0, 0]);
}

#[test]
fn filled_pixels_read_back_as_the_fill_color() {
    let color = FillColor::Rgb8([4, 5, 6]);
    let size = Size { width: 3, height: 2 };
    let filled = color.get_filled(size);
    for y in 0..2 {
        for x in 0..3 {
            assert_eq!(FillColor::from_pixel(PositionU { x, y }, 3, &rgb8(), &filled), color);
        }
    }
}
