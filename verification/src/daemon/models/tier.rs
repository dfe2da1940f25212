use vstd::prelude::*;

verus! {

/// How awake an app must be kept.
#[derive(Debug, Clone, Copy, PartialEq, Eq, Structural)]
pub enum Tier {
    Performance,
    Background,
    Nap,
}

} // verus!
