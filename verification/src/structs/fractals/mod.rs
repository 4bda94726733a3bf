//! Fractal descriptions of the blocking protocol.
pub mod mandelbrot;
