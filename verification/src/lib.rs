//! A format-agnostic image abstraction layer: a capability contract for
//! streaming decoders with a derived partial-region decode, a capability
//! contract for pixel-addressable images, a lazy row-major pixel iterator,
//! a non-owning rectangular view, and a reference alpha compositor.

pub mod animation;
pub mod buffer;
pub mod color;
pub mod image;
pub mod memory;
pub mod traits;

pub use crate::animation::Frame;
pub use crate::animation::Frames;
pub use crate::buffer::ImageBuffer;
pub use crate::color::ColorType;
pub use crate::color::Rgba;
pub use crate::color::bits_per_pixel;
pub use crate::image::DecodingBuffer;
pub use crate::image::DecodingResult;
pub use crate::image::GenericImage;
pub use crate::image::ImageDecoder;
pub use crate::image::ImageError;
pub use crate::image::ImageFormat;
pub use crate::image::ImageResult;
pub use crate::image::MutPixels;
pub use crate::image::Pixels;
pub use crate::image::SubImage;
pub use crate::image::into_frames;
pub use crate::image::is_animated;
pub use crate::image::load_rect;
pub use crate::image::pixels;
pub use crate::image::pixels_mut;
pub use crate::memory::MemoryDecoder;
pub use crate::traits::Pixel;
