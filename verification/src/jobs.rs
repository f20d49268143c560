//! Background work pool sizing.

use vstd::prelude::*;

verus! {

/// Worker count for a machine with `cores` cores (2 when unknown): one core
/// is left for the interface, and there are never fewer than two.
pub open spec fn pool_size_for(cores: Option<usize>) -> usize {
    let c = match cores {
        Some(n) => n,
        None => 2,
    };
    if c >= 3 {
        (c - 1) as usize
    } else {
        2
    }
}

/// Background work pool. Empty for now; later work enqueues index,
/// thumbnail and download jobs.
pub struct JobQueue {
    pool_size: usize,
}

impl JobQueue {
    /// Builds an idle queue for a machine with `cores` cores, as
    /// `std::thread::available_parallelism` reports them (`None` when it cannot).
    pub fn new(cores: Option<usize>) -> (q: JobQueue)
        ensures
            q.pool_size() == pool_size_for(cores),
    {
        let c = match cores {
            Some(n) => n,
            None => 2,
        };
        let less = c.saturating_sub(1);
        let pool_size = if less > 2 { less } else { 2 };
        JobQueue { pool_size }
    }

    /// Worker slots reserved for later jobs.
    pub closed spec fn spec_pool_size(&self) -> usize {
        self.pool_size
    }

    /// Worker slots reserved for later jobs. Never below two.
    #[verifier::when_used_as_spec(spec_pool_size)]
    pub fn pool_size(&self) -> (n: usize)
        ensures
            n == self.spec_pool_size(),
            n >= 2,
    {
        proof {
            use_type_invariant(self);
        }
        self.pool_size
    }

    #[verifier::type_invariant]
    spec fn at_least_two(&self) -> bool {
        self.pool_size >= 2
    }
}

} // verus!
