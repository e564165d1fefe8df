//! Decoding of PNG images into raw RGB rasters and their re-encoding as JPEG.
//!
//! The container parser and the scanline defiltering engine are verified
//! against mathematical models of the PNG chunk stream and of the five
//! scanline filters. Inflating the compressed payload and encoding the
//! final raster are delegated to `flate2` and `image`.

pub mod chunk;
pub mod convert;
pub mod defilter;
pub mod encode;
pub mod error;
pub mod filter;
pub mod inflate;
pub mod parse;
pub mod wire;

pub use convert::convert_png_to_jpg;
