use crate::border_offsets::BorderOffsets;
use crate::pixel_type::{JpgError, PngError, ResizePixelType};
use vstd::prelude::*;

verus! {

/// The error `blittle` reports when a blit cannot be set up.
#[verifier::external_type_specification]
#[verifier::external_body]
pub struct ExBlittleError(blittle::Error);

/// The error `fast_image_resize` reports when a pixel buffer cannot be viewed as an image.
#[verifier::external_type_specification]
#[verifier::external_body]
pub struct ExImageBufferError(fast_image_resize::ImageBufferError);

/// The error `fast_image_resize` reports for a crop box outside of an image.
#[verifier::external_type_specification]
#[verifier::external_body]
pub struct ExCropBoxError(fast_image_resize::CropBoxError);

/// The error `fast_image_resize` reports when resampling fails.
#[verifier::external_type_specification]
#[verifier::external_body]
pub struct ExResizeError(fast_image_resize::ResizeError);

/// Everything that can go wrong while slicing or resizing a sprite.
///
/// (Named apart from `blittle::Error`, which one of its variants carries.)
#[derive(Debug)]
pub enum NineSliceError {
    /// The border offsets don't fit the bitmap.
    InvalidSlices(BorderOffsets),
    /// Failed to view a pixel buffer as an image.
    FromSurface(fast_image_resize::ImageBufferError),
    /// Failed to crop the destination image.
    Crop(fast_image_resize::CropBoxError),
    /// Failed to resample an area.
    Resize(fast_image_resize::ResizeError),
    /// Failed to blit an area.
    Blittle(blittle::Error),
    /// The pixel type is not supported.
    UnsupportedPixelType(ResizePixelType),
    /// The png pixel type is not supported.
    Png(PngError),
    /// The jpg pixel type is not supported.
    Jpg(JpgError),
}

} // verus!
