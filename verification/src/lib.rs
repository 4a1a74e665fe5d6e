//! Per-channel binary masks of a raster image.
//!
//! An RGBA image is reduced to one bit per colour channel, each channel is
//! turned into a mask image that is opaque black where the reduced channel is
//! zero and transparent elsewhere, and the three masks are either kept apart
//! or tiled into one canvas.

pub mod compose;
pub mod mask;
pub mod naming;
pub mod pipeline;
pub mod pixel;
pub mod quantize;
pub mod raster;
