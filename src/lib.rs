//! Escape-time rendering of the Mandelbrot set: the decisions taken for each
//! pixel (when an orbit escapes, which color it gets) and the layout of the
//! resulting RGB image, proved against their contracts.
pub mod color;
pub mod escape;
pub mod raster;
