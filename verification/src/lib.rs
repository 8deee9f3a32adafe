//! A raster sample codec: it turns a raw pixel buffer, described by its
//! dimensions, per-band bit depth, per-band sample format, byte order and
//! photometric interpretation, into typed pixel values, and maps a small set
//! of common pixel layouts back into such a buffer with the metadata needed
//! to decode it again.

pub mod arrays;
pub mod endian;
pub mod pixel_image;
pub mod raster;
pub mod round_trip;

pub use endian::Endian;
pub use raster::{Raster, RasterError, SampleFormat, ExtraSamples, PhotometricInterpretation, Rgba8};
pub use arrays::Complex32Bits;
pub use pixel_image::{PixelImage, ImageKind, SampleData};
pub use round_trip::{lemma_encode_decode_round_trip, lemma_fallback_round_trip};
