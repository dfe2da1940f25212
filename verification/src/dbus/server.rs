//! The requests the daemon's D-Bus interface accepts.
use vstd::prelude::*;

verus! {

/// Why a request was refused.
#[derive(Debug, Clone, Copy, PartialEq, Eq, Structural)]
pub enum InvalidInput {
    /// The window id is empty.
    EmptyWindowId,
    /// The pid is zero or negative.
    NonPositivePid,
}

impl InvalidInput {
    pub fn message(self) -> (r: &'static str)
        ensures
            r@ == match self {
                InvalidInput::EmptyWindowId => "window_id must not be empty"@,
                InvalidInput::NonPositivePid => "pid must be > 0"@,
            },
    {
        match self {
            InvalidInput::EmptyWindowId => "window_id must not be empty",
            InvalidInput::NonPositivePid => "pid must be > 0",
        }
    }
}

/// A window event names a window and the pid of its process.
pub fn validate_input(window_id: &str, pid: i32) -> (r: Result<(), InvalidInput>)
    ensures
        r == (if window_id@.len() == 0 {
            Err(InvalidInput::EmptyWindowId)
        } else if pid <= 0 {
            Err(InvalidInput::NonPositivePid)
        } else {
            Ok(())
        }),
{
    if window_id.is_empty() {
        return Err(InvalidInput::EmptyWindowId);
    }
    if pid <= 0 {
        return Err(InvalidInput::NonPositivePid);
    }
    Ok(())
}

} // verus!
