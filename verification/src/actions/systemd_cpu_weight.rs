//! Napping a unit by a systemd CPU weight.
use crate::action::systemd::UnitProperty;
use vstd::prelude::*;

verus! {

/// systemd's default `CPUWeight`.
pub const CPU_WEIGHT_DEFAULT: u64 = 100;

/// What applying sets on the unit.
pub fn apply(weight: u64) -> (r: UnitProperty)
    ensures
        r == UnitProperty::CpuWeight(weight),
{
    UnitProperty::CpuWeight(weight)
}

/// What reverting sets on the unit: the default weight.
pub fn revert() -> (r: UnitProperty)
    ensures
        r == UnitProperty::CpuWeight(CPU_WEIGHT_DEFAULT),
{
    UnitProperty::CpuWeight(CPU_WEIGHT_DEFAULT)
}

} // verus!
