//! Perceptual image diffing for RGBA8 raster images.
//!
//! Two equally sized images are compared pixel by pixel: each pixel pair is
//! mapped to a scalar color distance in the YIQ color space after alpha
//! compositing over a white background, pixels whose distance exceeds a
//! configurable threshold are classified as real differences or as
//! anti-aliasing artifacts, and a visualization image is produced alongside
//! the count of real differences.
//!
//! All color arithmetic is exact fixed-point integer arithmetic: every
//! quantity is an integer numerator over a fixed power-of-ten denominator,
//! so the scan is deterministic and is proved against the mathematical
//! definitions in the specification functions, pixel for pixel and byte for
//! byte.

pub mod options;
pub mod color;
pub mod render;
pub mod aa;
pub mod engine;
pub mod laws;
pub mod codec;

pub use options::DiffOptions;
pub use engine::DiffResult;
pub use engine::diff_rgba;
pub use engine::diff_rgba_scalar;
pub use codec::DiffError;
pub use codec::diff_bytes;
