//! Strip sampling over a reference image and raster encoding for a
//! 58 mm thermal printer.

pub mod bitmap;
pub mod codec;
pub mod image;
pub mod pbm;
pub mod raster;
pub mod sampler;
