//! The size of an image in pixels.
use vstd::prelude::*;

verus! {

/// An image size: `nx` pixels wide, `ny` pixels high.
#[derive(Debug, Clone, Copy)]
pub struct Resolution {
    pub nx: u16,
    pub ny: u16,
}

impl Resolution {
    /// The size `nx` by `ny`.
    pub fn new(nx: u16, ny: u16) -> (r: Self)
        ensures
            r.nx == nx,
            r.ny == ny,
    {
        Self { nx, ny }
    }
}

impl Default for Resolution {
    fn default() -> (r: Self)
        ensures
            r.nx == 0,
            r.ny == 0,
    {
        Self { nx: 0, ny: 0 }
    }
}

} // verus!
