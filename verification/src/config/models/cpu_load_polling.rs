//! The integer part of the CPU-load polling settings. The usage and
//! throttle thresholds are floating-point numbers and stay with the daemon,
//! which hands this crate the outcome of its comparisons on them.
use vstd::prelude::*;

verus! {

/// Default polling interval, in milliseconds.
pub const DEFAULT_INTERVAL_MS: u64 = 10000;

/// How many consecutive ticks a load candidate must be seen before it is
/// applied.
#[derive(Debug, Clone, Copy, PartialEq, Eq, Structural)]
pub struct ConfirmTicks {
    /// Ticks to confirm a move to idle.
    pub idle: u64,
    /// Ticks to confirm a move to busy.
    pub busy: u64,
}

impl Default for ConfirmTicks {
    fn default() -> (r: Self)
        ensures
            r.idle == 2,
            r.busy == 1,
    {
        ConfirmTicks { idle: 2, busy: 1 }
    }
}

} // verus!
