//! A slice of a data block: where it starts and how long it is.
use vstd::prelude::*;

verus! {

/// A slice of a data block: its offset and its length in bytes.
#[derive(Debug, Clone, Copy)]
pub struct U8Data {
    pub offset: u32,
    pub count: u32,
}

impl U8Data {
    /// The slice of `count` bytes at `offset`.
    pub fn new(offset: u32, count: u32) -> (d: Self)
        ensures
            d.offset == offset,
            d.count == count,
    {
        Self { offset, count }
    }
}

impl Default for U8Data {
    fn default() -> (d: Self)
        ensures
            d.offset == 0,
            d.count == 0,
    {
        Self { offset: 0, count: 0 }
    }
}

} // verus!
