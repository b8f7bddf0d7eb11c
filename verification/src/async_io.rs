//! The asynchronous file environment's handle.

use vstd::prelude::*;

verus! {

/// An environment that performs file I/O on a blocking thread pool.
#[derive(Debug, Clone, Copy, PartialEq, Eq, Structural)]
pub struct IoUringEnv;

impl IoUringEnv {
    pub fn new() -> (r: Self)
        ensures
            r == IoUringEnv,
    {
        IoUringEnv
    }
}

impl Default for IoUringEnv {
    fn default() -> (r: Self)
        ensures
            r == IoUringEnv,
    {
        Self::new()
    }
}

} // verus!
