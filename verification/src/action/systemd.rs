//! The systemd unit properties that the systemd backends set.
use vstd::prelude::*;

verus! {

/// `CPUQuotaPerSecUSec` value that lifts the quota.
pub const CPU_QUOTA_UNSET: u64 = 0xffff_ffff_ffff_ffff;

/// systemd's default `CPUWeight`.
pub const CPU_WEIGHT_DEFAULT: u64 = 100;

/// A CPU quota in percent of one CPU, as microseconds of CPU time per
/// second.
pub fn cpu_quota_from_percent(percent: u32) -> (r: u64)
    ensures
        r == percent * 10_000,
{
    (percent as u64) * 10_000
}

/// A systemd unit property and its value.
#[derive(Debug, Clone, Copy, PartialEq, Eq, Structural)]
pub enum UnitProperty {
    /// `CPUQuotaPerSecUSec`
    CpuQuotaPerSecUSec(u64),
    /// `CPUWeight`
    CpuWeight(u64),
}

impl UnitProperty {
    /// The property's D-Bus name.
    pub fn name(&self) -> (r: &'static str)
        ensures
            r@ == property_name(*self),
    {
        match self {
            UnitProperty::CpuQuotaPerSecUSec(_) => "CPUQuotaPerSecUSec",
            UnitProperty::CpuWeight(_) => "CPUWeight",
        }
    }

    /// The value to set.
    pub fn value(&self) -> (r: u64)
        ensures
            r == match *self {
                UnitProperty::CpuQuotaPerSecUSec(v) => v,
                UnitProperty::CpuWeight(v) => v,
            },
    {
        match self {
            UnitProperty::CpuQuotaPerSecUSec(v) => *v,
            UnitProperty::CpuWeight(v) => *v,
        }
    }
}

pub open spec fn property_name(p: UnitProperty) -> Seq<char> {
    match p {
        UnitProperty::CpuQuotaPerSecUSec(_) => "CPUQuotaPerSecUSec"@,
        UnitProperty::CpuWeight(_) => "CPUWeight"@,
    }
}

/// What napping with a CPU quota sets.
pub fn set_cpu_quota(quota: u64) -> (r: UnitProperty)
    ensures
        r == UnitProperty::CpuQuotaPerSecUSec(quota),
{
    UnitProperty::CpuQuotaPerSecUSec(quota)
}

/// What resuming from a CPU quota sets: the quota lifted.
pub fn unset_cpu_quota() -> (r: UnitProperty)
    ensures
        r == UnitProperty::CpuQuotaPerSecUSec(CPU_QUOTA_UNSET),
{
    UnitProperty::CpuQuotaPerSecUSec(CPU_QUOTA_UNSET)
}

/// What napping with a CPU weight sets.
pub fn set_cpu_weight(weight: u64) -> (r: UnitProperty)
    ensures
        r == UnitProperty::CpuWeight(weight),
{
    UnitProperty::CpuWeight(weight)
}

/// What resuming from a CPU weight sets: the default weight.
pub fn reset_cpu_weight() -> (r: UnitProperty)
    ensures
        r == UnitProperty::CpuWeight(CPU_WEIGHT_DEFAULT),
{
    UnitProperty::CpuWeight(CPU_WEIGHT_DEFAULT)
}

} // verus!
