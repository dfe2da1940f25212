//! A systemd unit that window groups vote on, and the policy applied to it.
use super::policy::Policy;
use crate::cgroup::UnitName;
use std::collections::BTreeSet;
use vstd::prelude::*;

verus! {

pub struct ManagedUnit {
    pub name: UnitName,
    /// Pids of the window groups whose processes run in the unit.
    pub voters: BTreeSet<i32>,
    /// The policy applied to the unit, as far as is known.
    pub applied_policy: Option<Policy>,
}

impl ManagedUnit {
    /// A unit with no policy applied yet.
    pub fn new(name: UnitName, voters: BTreeSet<i32>) -> (r: Self)
        ensures
            r.name == name,
            r.voters@ == voters@,
            r.applied_policy is None,
    {
        ManagedUnit { name, voters, applied_policy: None }
    }
}

} // verus!
