//! In-memory raster image filters with machine-checked contracts.

pub mod bitflags;
pub mod convolution;
pub mod edge;
pub mod filter;
pub mod image;
pub mod kernel;
pub mod magnitude;
pub mod mirror;
pub mod pixel;
pub mod sobel;
pub mod tonal;
