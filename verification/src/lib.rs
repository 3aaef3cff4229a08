//! Raster-to-vector conversion: a bitmap pixel grid becomes a compact
//! markup document of one-scanline-tall rectangles.
//!
//! The pipeline: a [`grid::PixelGrid`] is scanned into horizontal runs of
//! equal color ([`scan`]), repeated run shapes are deduplicated into shared
//! definitions ([`defs`], [`emit`]), and the result is serialized into one
//! document ([`doc`]). [`files`] holds the filename-suffix rules that decide
//! which inputs are converted and how an output name is derived.

pub mod grid;
pub mod markup;
pub mod scan;
pub mod defs;
pub mod emit;
pub mod doc;
pub mod files;
pub mod laws;
