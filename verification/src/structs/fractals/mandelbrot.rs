//! The Mandelbrot set, which takes no parameter.
use vstd::prelude::*;

verus! {

/// The Mandelbrot fractal.
#[derive(Debug, Clone, Copy)]
pub struct Mandelbrot {}

impl Default for Mandelbrot {
    fn default() -> (m: Self)
        ensures
            m == (Mandelbrot {}),
    {
        Mandelbrot {}
    }
}

} // verus!
