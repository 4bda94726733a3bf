use vstd::prelude::*;

pub mod cli;
pub mod codec;
pub mod listener;
pub mod local_env;
pub mod models;
pub mod network;
pub mod networking;
pub mod pixels;
pub mod pool;
pub mod portal;
pub mod rendering;
pub mod structs;
pub mod tasks;
pub mod utils;

verus! {

/// Sum of two sizes.
pub fn add(left: usize, right: usize) -> (sum: usize)
    requires
        left + right <= usize::MAX,
    ensures
        sum == left + right,
{
    left + right
}

} // verus!
