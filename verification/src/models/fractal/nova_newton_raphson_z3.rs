//! The Nova fractal of Newton's method on z^3 - 1.
use vstd::prelude::*;

verus! {

/// The Nova Newton-Raphson fractal for z^3 - 1.
#[derive(Debug, Clone, Copy)]
pub struct NovaNewtonRaphsonZ3 {}

impl NovaNewtonRaphsonZ3 {
    /// The Nova Newton-Raphson fractal for z^3 - 1.
    pub fn new() -> (f: Self)
        ensures
            f == (NovaNewtonRaphsonZ3 {}),
    {
        Self {}
    }
}

} // verus!
