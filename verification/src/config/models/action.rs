use vstd::prelude::*;

verus! {

/// One action of a policy, as the configuration names it.
#[derive(Debug, Clone, Copy, PartialEq, Eq, Structural)]
pub enum ActionConfig {
    Ecore,
    SystemdFreeze,
    SystemdCpuQuota { percent: u64 },
    SystemdCpuWeight { weight: u64 },
}

} // verus!
