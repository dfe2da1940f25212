//! A systemd unit, the window groups that have processes in it, and the
//! policy applied to it.
use super::policy::Policy;
use crate::cgroup::UnitName;
use std::collections::BTreeSet;
use vstd::prelude::*;

verus! {

pub struct UnitState {
    pub name: UnitName,
    pub members: BTreeSet<i32>,
    pub applied_policy: Option<Policy>,
}

impl UnitState {
    /// A unit with no policy applied yet.
    pub fn new(name: UnitName, members: BTreeSet<i32>) -> (r: Self)
        ensures
            r.name == name,
            r.members@ == members@,
            r.applied_policy is None,
    {
        UnitState { name, members, applied_policy: None }
    }
}

} // verus!
