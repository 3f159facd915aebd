//! Raster-image transformations over RGBA pixel buffers: quarter-turn
//! rotation, Lanczos resampling, luma projection, 3x3 convolution and
//! histogram equalization.
pub mod backend;
pub mod color;
pub mod convolve;
pub mod equalize;
pub mod facade;
pub mod geometry;
pub mod raster;
