//! Validated grid parameters.
//!
//! The quadrature engine works on a positive grid resolution, a positive
//! iteration budget, and at least one worker.  Validation happens here,
//! before any work is dispatched, and the rest of the library can rely on
//! the invariant.

use vstd::prelude::*;

verus! {

/// Why a configuration was rejected.
#[derive(Clone, Copy, Debug, PartialEq, Eq, Structural)]
pub enum ConfigError {
    /// The worker count was below one.
    InvalidThreads,
    /// A step count was below one.
    InvalidSteps,
    /// The iteration budget was below one.
    InvalidIters,
}

/// The integer part of an integration configuration: grid resolution,
/// iteration budget and worker count, all validated to be at least one.
#[derive(Clone, Copy, Debug, PartialEq, Eq, Structural)]
pub struct GridParams {
    pub xsteps: u64,
    pub ysteps: u64,
    pub max_iters: u64,
    pub thread_num: u64,
}

impl GridParams {
    /// Every field is at least one.
    pub open spec fn wf(self) -> bool {
        &&& self.xsteps >= 1
        &&& self.ysteps >= 1
        &&& self.max_iters >= 1
        &&& self.thread_num >= 1
    }

    /// Validates a raw configuration.  Succeeds exactly when the worker
    /// count, both step counts and the iteration budget are positive;
    /// the error names the first field group that failed, checked in the
    /// order: workers, steps, iteration budget.
    pub fn new(xsteps: i64, ysteps: i64, max_iters: i32, thread_num: i32) -> (r: Result<
        GridParams,
        ConfigError,
    >)
        ensures
            r is Ok <==> (xsteps >= 1 && ysteps >= 1 && max_iters >= 1 && thread_num >= 1),
            r matches Ok(p) ==> p == (GridParams {
                xsteps: xsteps as u64,
                ysteps: ysteps as u64,
                max_iters: max_iters as u64,
                thread_num: thread_num as u64,
            }) && p.wf(),
            r matches Err(e) ==> (e == ConfigError::InvalidThreads <==> thread_num < 1),
            r matches Err(e) ==> (e == ConfigError::InvalidSteps <==> (thread_num >= 1 && (xsteps
                < 1 || ysteps < 1))),
            r matches Err(e) ==> (e == ConfigError::InvalidIters <==> (thread_num >= 1 && xsteps
                >= 1 && ysteps >= 1 && max_iters < 1)),
    {
        if thread_num < 1 {
            Err(ConfigError::InvalidThreads)
        } else if xsteps < 1 || ysteps < 1 {
            Err(ConfigError::InvalidSteps)
        } else if max_iters < 1 {
            Err(ConfigError::InvalidIters)
        } else {
            Ok(
                GridParams {
                    xsteps: xsteps as u64,
                    ysteps: ysteps as u64,
                    max_iters: max_iters as u64,
                    thread_num: thread_num as u64,
                },
            )
        }
    }
}

} // verus!
