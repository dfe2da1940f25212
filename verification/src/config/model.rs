//! The second configuration layout: a base action list per tier with
//! optional idle and busy variants, and the CPU-load polling settings. The
//! usage and throttle thresholds of the polling settings are floating-point
//! numbers and stay with the daemon; their integer part is [`TtlConfig`].
use vstd::prelude::*;

verus! {

/// One action of a tier slot, as the configuration names it.
#[derive(Debug, Clone, Copy, PartialEq, Eq, Structural)]
pub enum Action {
    Signal,
    SystemdFreeze,
    Ecore,
    SystemdCpuQuota { percent: u32 },
    SystemdCpuWeight { weight: u64 },
}

/// CPU quota of a `systemd-cpu-quota` action that names none.
pub fn default_cpu_quota_percent() -> (r: u32)
    ensures
        r == 10,
{
    10
}

/// CPU weight of a `systemd-cpu-weight` action that names none.
pub fn default_cpu_weight() -> (r: u64)
    ensures
        r == 1,
{
    1
}

/// Actions for one config tier slot. `[tiers.x]` is the base; optional
/// `[tiers.x.idle]` / `[tiers.x.busy]` override it for that load.
#[derive(Debug)]
pub struct TierConfig {
    pub actions: Vec<Action>,
    pub idle: Option<Box<TierConfig>>,
    pub busy: Option<Box<TierConfig>>,
}

impl Default for TierConfig {
    fn default() -> (r: Self)
        ensures
            r.actions@.len() == 0,
            r.idle is None,
            r.busy is None,
    {
        TierConfig { actions: Vec::new(), idle: None, busy: None }
    }
}

pub fn default_performance_tier() -> (r: TierConfig)
    ensures
        r.actions@ == seq![Action::SystemdCpuWeight { weight: 100 }],
        r.idle is None,
        r.busy is None,
{
    TierConfig { actions: vec![Action::SystemdCpuWeight { weight: 100 }], idle: None, busy: None }
}

pub fn default_background_tier() -> (r: TierConfig)
    ensures
        r.actions@ == seq![Action::SystemdCpuWeight { weight: 1 }],
        r.idle is None,
        r.busy is None,
{
    TierConfig {
        actions: vec![Action::SystemdCpuWeight { weight: default_cpu_weight() }],
        idle: None,
        busy: None,
    }
}

pub fn default_nap_tier() -> (r: TierConfig)
    ensures
        r.actions@ == seq![Action::SystemdCpuQuota { percent: 10 }],
        r.idle is None,
        r.busy is None,
{
    TierConfig {
        actions: vec![Action::SystemdCpuQuota { percent: default_cpu_quota_percent() }],
        idle: None,
        busy: None,
    }
}

#[derive(Debug)]
pub struct Tiers {
    pub performance: TierConfig,
    pub background: TierConfig,
    pub nap: TierConfig,
}

impl Default for Tiers {
    fn default() -> (r: Self)
        ensures
            r.performance.actions@ == seq![Action::SystemdCpuWeight { weight: 100 }],
            r.background.actions@ == seq![Action::SystemdCpuWeight { weight: 1 }],
            r.nap.actions@ == seq![Action::SystemdCpuQuota { percent: 10 }],
            r.performance.idle is None && r.performance.busy is None,
            r.background.idle is None && r.background.busy is None,
            r.nap.idle is None && r.nap.busy is None,
    {
        Tiers {
            performance: default_performance_tier(),
            background: default_background_tier(),
            nap: default_nap_tier(),
        }
    }
}

/// Default polling interval, in milliseconds.
pub fn default_interval_ms() -> (r: u64)
    ensures
        r == 10_000,
{
    10_000
}

/// Default number of ticks an idle candidate must persist.
pub fn default_ttl_idle() -> (r: u32)
    ensures
        r == 2,
{
    2
}

/// Default number of ticks a busy candidate must persist.
pub fn default_ttl_busy() -> (r: u32)
    ensures
        r == 1,
{
    1
}

/// How many ticks a load candidate must persist before it is applied.
#[derive(Debug, Clone, Copy, PartialEq, Eq, Structural)]
pub struct TtlConfig {
    pub ttl_idle: u32,
    pub ttl_busy: u32,
}

impl Default for TtlConfig {
    fn default() -> (r: Self)
        ensures
            r.ttl_idle == 2,
            r.ttl_busy == 1,
    {
        TtlConfig { ttl_idle: default_ttl_idle(), ttl_busy: default_ttl_busy() }
    }
}

} // verus!
