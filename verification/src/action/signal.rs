//! What a failed signal (or affinity change) to a process means.
use vstd::prelude::*;

verus! {

/// `errno` for a process that no longer exists.
pub const ESRCH: i32 = 3;

/// A failure to signal a process of an app ends the operation, unless the
/// process is already gone (`ESRCH`): apps exit all the time.
pub fn is_fatal_kill_error(raw_os_error: Option<i32>) -> (r: bool)
    ensures
        r == (raw_os_error != Some(ESRCH)),
{
    match raw_os_error {
        Some(e) => e != ESRCH,
        None => true,
    }
}

} // verus!
