//! The first configuration layout: one action list per tier.
use vstd::prelude::*;

verus! {

/// One action of a tier, as the configuration names it.
#[derive(Debug, Clone, Copy, PartialEq, Eq, Structural)]
pub enum Action {
    Signal,
    SystemdFreeze,
    Ecore,
    SystemdCpuQuota { percent: u32 },
    SystemdCpuWeight { weight: u64 },
}

/// CPU quota of a `systemd-cpu-quota` action that names none.
pub fn default_cpu_quota_percent() -> (r: u32)
    ensures
        r == 10,
{
    10
}

/// CPU weight of a `systemd-cpu-weight` action that names none.
pub fn default_cpu_weight() -> (r: u64)
    ensures
        r == 1,
{
    1
}

#[derive(Debug, Clone)]
pub struct Tier {
    pub actions: Vec<Action>,
}

pub fn default_performance_tier() -> (r: Tier)
    ensures
        r.actions@ == seq![Action::SystemdCpuWeight { weight: 100 }],
{
    Tier { actions: vec![Action::SystemdCpuWeight { weight: 100 }] }
}

pub fn default_background_tier() -> (r: Tier)
    ensures
        r.actions@ == seq![Action::SystemdCpuWeight { weight: 1 }],
{
    Tier { actions: vec![Action::SystemdCpuWeight { weight: default_cpu_weight() }] }
}

pub fn default_nap_tier() -> (r: Tier)
    ensures
        r.actions@ == seq![Action::SystemdCpuQuota { percent: 10 }],
{
    Tier { actions: vec![Action::SystemdCpuQuota { percent: default_cpu_quota_percent() }] }
}

#[derive(Debug, Clone)]
pub struct Tiers {
    pub performance: Tier,
    pub background: Tier,
    pub nap: Tier,
}

impl Default for Tiers {
    fn default() -> (r: Self)
        ensures
            r.performance.actions@ == seq![Action::SystemdCpuWeight { weight: 100 }],
            r.background.actions@ == seq![Action::SystemdCpuWeight { weight: 1 }],
            r.nap.actions@ == seq![Action::SystemdCpuQuota { percent: 10 }],
    {
        Tiers {
            performance: default_performance_tier(),
            background: default_background_tier(),
            nap: default_nap_tier(),
        }
    }
}

#[derive(Debug, Clone)]
pub struct Config {
    pub tiers: Tiers,
}

impl Default for Config {
    fn default() -> (r: Self)
        ensures
            r.tiers.performance.actions@ == seq![Action::SystemdCpuWeight { weight: 100 }],
            r.tiers.background.actions@ == seq![Action::SystemdCpuWeight { weight: 1 }],
            r.tiers.nap.actions@ == seq![Action::SystemdCpuQuota { percent: 10 }],
    {
        Config { tiers: Tiers::default() }
    }
}

} // verus!
