use crate::action::Action;
use vstd::prelude::*;

verus! {

/// Effective policy selected by (tier, load). Load variants fall back to the
/// tier's base policy when not configured, so the key already reflects that
/// collapse: equal keys mean equal action sets.
#[derive(Debug, Copy, Clone, PartialEq, Eq, Structural)]
pub enum PolicyKey {
    Performance,
    BackgroundBusy,
    BackgroundIdle,
    NapIdle,
    NapBusy,
}

/// Action list for one effective policy.
pub struct TierPolicy {
    actions: Vec<Action>,
}

impl TierPolicy {
    pub fn new(actions: Vec<Action>) -> (r: Self)
        ensures
            r.spec_actions() == actions@,
    {
        Self { actions }
    }

    pub closed spec fn spec_actions(&self) -> Seq<Action> {
        self.actions@
    }

    pub fn actions(&self) -> (r: &[Action])
        ensures
            r@ == self.spec_actions(),
    {
        self.actions.as_slice()
    }
}

} // verus!
