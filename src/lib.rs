//! Converts a raster image into a grid of colored characters: each cell shows
//! either an edge character chosen from the dominant gradient direction of its
//! window, or a gray character chosen from its brightness.

pub mod compose;
pub mod edges;
pub mod grid;
pub mod pipeline;
pub mod quantize;
pub mod raster;
pub mod staged;

pub use compose::AsciiCharInfo;
pub use pipeline::{image_to_ascii_art, AsciiArtOutput, ConvertError};
