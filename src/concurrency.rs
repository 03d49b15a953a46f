//! The configurable ceiling on concurrently running jobs.
use vstd::prelude::*;

verus! {

/// The ceiling a new manager starts with.
pub const DEFAULT_CONCURRENCY: usize = 2;

/// Holds the ceiling on concurrent jobs; it is never below one.
#[derive(Debug, Clone, Copy)]
pub struct ConcurrencyManager {
    max_concurrency: usize,
}

impl ConcurrencyManager {
    /// The ceiling in force.
    pub closed spec fn limit(&self) -> nat {
        if self.max_concurrency == 0 {
            1
        } else {
            self.max_concurrency as nat
        }
    }

    pub fn new() -> (r: ConcurrencyManager)
        ensures
            r.limit() == DEFAULT_CONCURRENCY,
    {
        ConcurrencyManager { max_concurrency: DEFAULT_CONCURRENCY }
    }

    /// The ceiling in force.
    pub fn get_limit(&self) -> (r: usize)
        ensures
            r == self.limit(),
            r >= 1,
    {
        if self.max_concurrency == 0 {
            1
        } else {
            self.max_concurrency
        }
    }

    /// Sets the ceiling to `limit`, or to one when `limit` is zero.
    pub fn set_limit(&mut self, limit: usize)
        ensures
            final(self).limit() == (if limit == 0 {
                1
            } else {
                limit as nat
            }),
    {
        self.max_concurrency = if limit == 0 {
            1
        } else {
            limit
        };
    }
}

impl Default for ConcurrencyManager {
    fn default() -> (r: ConcurrencyManager)
        ensures
            r.limit() == DEFAULT_CONCURRENCY,
    {
        ConcurrencyManager::new()
    }
}

} // verus!
