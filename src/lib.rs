//! Conversion of raster images to WebP: output-name derivation, result
//! records, and the text payload that carries the encoded bytes.

pub mod naming;
pub mod payload;
pub mod convert;
