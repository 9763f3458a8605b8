//! Palette recoloring: which palette entries replace a pixel, and how the
//! palette is read from text.
//!
//! Colour arithmetic happens in floating point outside this library. What is
//! decided here is exact: the palette's tokens and their deduplication, the
//! choice of the nearest and second-nearest entries from their distances, the
//! blend weight that the interpolation mode calls for, and the fail-fast rule
//! of the recoloring pipeline.

pub mod error;
pub mod hex;
pub mod pipeline;
pub mod select;
pub mod swatches;
pub mod text;

pub use error::RecolorError;
pub use pipeline::plan;
pub use hex::read_hex_color;
pub use select::{nearest, InterpolationMode, Match, Weight};
pub use swatches::Palette;
