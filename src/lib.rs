//! Binary pictures of the Mandelbrot set: the mapping from pixels to points of
//! the complex plane, the escape-time decision, the picture itself, and the
//! settings read from the command line, each with its contract.
pub mod escape;
pub mod plane;
pub mod raster;
pub mod settings;
