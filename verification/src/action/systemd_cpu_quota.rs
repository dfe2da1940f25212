use super::systemd::{UnitProperty, CPU_QUOTA_UNSET};
use std::sync::Arc;
use vstd::prelude::*;

verus! {

/// Napping by a systemd CPU quota, through the client `C`.
pub struct SystemdCpuQuotaAction<C> {
    client: Arc<C>,
    quota: u64,
}

impl<C> SystemdCpuQuotaAction<C> {
    pub fn new(client: Arc<C>, quota: u64) -> (r: Self)
        ensures
            r.spec_quota() == quota,
            r.spec_client() == client,
    {
        Self { client, quota }
    }

    pub closed spec fn spec_quota(self) -> u64 {
        self.quota
    }

    pub closed spec fn spec_client(self) -> Arc<C> {
        self.client
    }

    pub fn client(&self) -> (r: &Arc<C>)
        ensures
            *r == self.spec_client(),
    {
        &self.client
    }

    /// The property that applying sets on each cgroup.
    pub fn apply(&self) -> (r: UnitProperty)
        ensures
            r == UnitProperty::CpuQuotaPerSecUSec(self.spec_quota()),
    {
        UnitProperty::CpuQuotaPerSecUSec(self.quota)
    }

    /// The property that reverting sets on each cgroup: the quota lifted.
    pub fn revert(&self) -> (r: UnitProperty)
        ensures
            r == UnitProperty::CpuQuotaPerSecUSec(CPU_QUOTA_UNSET),
    {
        UnitProperty::CpuQuotaPerSecUSec(CPU_QUOTA_UNSET)
    }
}

/// A CPU quota in percent of one CPU, as microseconds of CPU time per
/// second.
pub fn cpu_quota_from_percent(percent: u32) -> (r: u64)
    ensures
        r == percent * 10_000,
{
    (percent as u64) * 10_000
}

} // verus!
