//! Escape-time rendering of the Mandelbrot set into an 8-bit grayscale raster.
//!
//! The crate holds the parts of the renderer that are independent of the
//! number representation: the row-major layout of the pixel buffer, the
//! bounded orbit iteration with its early exit, the mapping from escape time
//! to intensity, and the loop that fills the buffer. The arithmetic on points
//! of the complex plane is supplied by the caller as closures.

pub mod escape;
pub mod grid;
pub mod render;
pub mod shade;

pub use escape::escape_time;
pub use grid::{buffer_fits, pixel_index};
pub use render::{render, ITERATION_BUDGET};
pub use shade::shade;
