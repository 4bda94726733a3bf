//! The Mandelbrot set.
use vstd::prelude::*;

verus! {

/// The Mandelbrot fractal.
#[derive(Debug, Clone)]
pub struct Mandelbrot {}

impl Mandelbrot {
    /// The Mandelbrot fractal.
    pub fn new() -> (m: Self)
        ensures
            m == (Mandelbrot {}),
    {
        Self {}
    }
}

impl Default for Mandelbrot {
    fn default() -> (m: Self)
        ensures
            m == (Mandelbrot {}),
    {
        Self::new()
    }
}

} // verus!
