//! Napping a unit by a systemd CPU quota.
use crate::action::systemd::UnitProperty;
use vstd::prelude::*;

verus! {

/// `CPUQuotaPerSecUSec` value that lifts the quota.
pub const CPU_QUOTA_UNSET: u64 = 0xffff_ffff_ffff_ffff;

/// A CPU quota in percent of one CPU, as microseconds of CPU time per
/// second.
pub fn cpu_quota_from_percent(percent: u64) -> (r: u64)
    requires
        percent * 10_000 <= u64::MAX,
    ensures
        r == percent * 10_000,
{
    percent * 10_000
}

/// What applying sets on the unit.
pub fn apply(percent: u64) -> (r: UnitProperty)
    requires
        percent * 10_000 <= u64::MAX,
    ensures
        r == UnitProperty::CpuQuotaPerSecUSec((percent * 10_000) as u64),
{
    UnitProperty::CpuQuotaPerSecUSec(cpu_quota_from_percent(percent))
}

/// What reverting sets on the unit: the quota lifted.
pub fn revert() -> (r: UnitProperty)
    ensures
        r == UnitProperty::CpuQuotaPerSecUSec(CPU_QUOTA_UNSET),
{
    UnitProperty::CpuQuotaPerSecUSec(CPU_QUOTA_UNSET)
}

} // verus!
