//! Output side of a sphere ray tracer: the plain-text colour-table image
//! format (`P3`) and the scanline order in which pixels are emitted.
//!
//! The floating-point renderer (vectors, intersection, materials, camera and
//! the recursive integrator) turns each pixel into three quantized channel
//! values; this library decides how those values are laid out as bytes.

pub mod integrator;
pub mod ppm;
pub mod raster;
