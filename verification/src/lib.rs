//! Scale images using nine-slice scaling.
//!
//! Nine-slice scaling is a common rendering technique used to scale images without distorting
//! their borders: the corners of a sprite keep their size, the borders are stretched or repeated
//! along one axis, and the inner area is resized.
pub mod bitmap;
pub mod border_offsets;
pub mod border_scaling;
pub mod borders;
pub mod corners;
pub mod error;
pub mod fill;
pub mod geometry;
pub mod nine_sliced_sprite;
pub mod nine_slices;
pub mod paint;
pub mod params;
pub mod pixel_bytes;
pub mod pixel_color;
pub mod pixel_type;
pub mod rect;
pub mod resize_method;
pub mod sliced_borders;
pub mod slices;
pub mod sprite;

pub use bitmap::Bitmap;
pub use border_offsets::BorderOffsets;
pub use border_scaling::BorderScaling;
pub use error::NineSliceError;
pub use geometry::{PositionU, RectU, Size};
pub use nine_sliced_sprite::{NineSlicedSprite, Resample, Resized};
pub use nine_slices::NineSlices;
pub use resize_method::{ResizeMethod, ResizeMethods};
