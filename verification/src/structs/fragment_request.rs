//! A worker's request for work.
use vstd::prelude::*;

verus! {

/// A request for work: who asks, and how much it accepts.
#[derive(Debug)]
pub struct FragmentRequest {
    pub worker_name: String,
    pub maximal_work_load: u32,
}

impl FragmentRequest {
    /// A request from `worker_name` for at most `maximal_work_load`.
    pub fn new(worker_name: &str, maximal_work_load: u32) -> (r: Self)
        ensures
            r.worker_name@ == worker_name@,
            r.maximal_work_load == maximal_work_load,
    {
        Self { worker_name: worker_name.to_owned(), maximal_work_load }
    }
}

} // verus!
