//! Work-distribution parameters for batch conversion: the bounded worker
//! count and the fixed chunk size. Worker count never affects the output,
//! only how the sectors are fanned out.

use vstd::prelude::*;

verus! {

/// Relies on num_cpus::get: the number of logical CPUs of the running
/// machine, documented to always be at least 1. Nothing else is assumed
/// of it, and the worker count never influences what is encoded.
#[verifier::external_body]
fn detected_cpus() -> (n: usize)
    ensures
        1 <= n,
{
    num_cpus::get()
}

/// Batch-driver configuration: how many workers encode sectors in
/// parallel, and how many sectors each worker takes at a time.
pub struct ParallelProcessor {
    pub num_workers: usize,
    pub chunk_size: usize,
}

impl ParallelProcessor {
    /// Choose the worker count: the caller's explicit choice if there is
    /// one, otherwise the machine's CPU count capped at 8 to avoid
    /// diminishing returns. The chunk size is a fixed 64 sectors.
    pub fn new(num_workers: Option<usize>) -> (r: Self)
        ensures
            r.chunk_size == 64,
            match num_workers {
                Some(w) => r.num_workers == w,
                None => 1 <= r.num_workers <= 8,
            },
    {
        let num_workers = match num_workers {
            Some(w) => w,
            None => {
                let cpus = detected_cpus();
                if cpus < 8 {
                    cpus
                } else {
                    8
                }
            },
        };

        let chunk_size: usize = 64;

        Self { num_workers, chunk_size }
    }

    pub fn num_workers(&self) -> (r: usize)
        ensures
            r == self.num_workers,
    {
        self.num_workers
    }

    pub fn chunk_size(&self) -> (r: usize)
        ensures
            r == self.chunk_size,
    {
        self.chunk_size
    }
}

} // verus!
