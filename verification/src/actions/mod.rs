//! The actions of the unit policies, and what applying and reverting each
//! one does to a systemd unit. The daemon performs the operations.
pub mod systemd_cpu_quota;
pub mod systemd_cpu_weight;

use crate::action::ecore::{CpuSet, ECoreAction};
use crate::action::systemd::UnitProperty;
use crate::config::models::action::ActionConfig;
use systemd_cpu_quota::CPU_QUOTA_UNSET;
use systemd_cpu_weight::CPU_WEIGHT_DEFAULT;
use vstd::prelude::*;

verus! {

pub enum Action {
    /// Pin the unit's processes to the E-cores; restore all online cores.
    Ecore { ecore: Box<ECoreAction> },
    /// Freeze the unit; thaw it.
    SystemdFreeze,
    /// Set a CPU quota of `percent` of one CPU; lift it.
    SystemdCpuQuota { percent: u64 },
    /// Set a CPU weight; restore the default weight.
    SystemdCpuWeight { weight: u64 },
}

/// An operation on one unit.
pub enum UnitOp<'a> {
    /// Set the CPU affinity of every process of the unit's cgroup.
    Affinity(&'a CpuSet),
    /// Freeze the unit.
    Freeze,
    /// Thaw the unit.
    Thaw,
    /// Set a property of the unit.
    SetProperty(UnitProperty),
}

/// The action `a` is the one the configured action `c` names; an E-core
/// action carries the E-core layout `ecore`.
pub open spec fn action_of(a: Action, c: ActionConfig, ecore: Option<ECoreAction>) -> bool {
    match (c, a) {
        (ActionConfig::Ecore, Action::Ecore { ecore: e }) => ecore matches Some(src) && e.wf()
            && e.ecores().cpus() == src.ecores().cpus() && e.allcores().cpus()
            == src.allcores().cpus(),
        (ActionConfig::SystemdFreeze, Action::SystemdFreeze) => true,
        (ActionConfig::SystemdCpuQuota { percent: p }, Action::SystemdCpuQuota { percent }) => percent
            == p,
        (ActionConfig::SystemdCpuWeight { weight: w }, Action::SystemdCpuWeight { weight }) => weight
            == w,
        _ => false,
    }
}

impl Action {
    /// The E-core layout is well formed.
    pub open spec fn wf(&self) -> bool {
        match self {
            Action::Ecore { ecore } => ecore.wf(),
            _ => true,
        }
    }

    /// The action a configured action names. An E-core action needs the
    /// E-core layout, which the daemon reads from the system.
    pub fn from_config(config: &ActionConfig, ecore: Option<&ECoreAction>) -> (r: Action)
        requires
            *config == ActionConfig::Ecore ==> ecore is Some,
            ecore matches Some(e) ==> e.wf(),
        ensures
            r.wf(),
            action_of(r, *config, match ecore {
                Some(e) => Some(*e),
                None => None,
            }),
    {
        match config {
            ActionConfig::Ecore => {
                let e = match ecore {
                    Some(e) => e,
                    None => {
                        assert(false);
                        return Action::SystemdFreeze;
                    },
                };
                Action::Ecore { ecore: Box::new(e.duplicate()) }
            },
            ActionConfig::SystemdFreeze => Action::SystemdFreeze,
            ActionConfig::SystemdCpuQuota { percent } => Action::SystemdCpuQuota { percent: *percent },
            ActionConfig::SystemdCpuWeight { weight } => Action::SystemdCpuWeight { weight: *weight },
        }
    }

    /// What applying the action does to a unit. A quota whose microseconds
    /// do not fit in 64 bits cannot be applied.
    pub fn apply(&self) -> (r: UnitOp<'_>)
        requires
            self.wf(),
            self matches Action::SystemdCpuQuota { percent } ==> percent * 10_000 <= u64::MAX,
        ensures
            match (*self, r) {
                (Action::Ecore { ecore }, UnitOp::Affinity(s)) => s.wf() && s.cpus()
                    == ecore.ecores().cpus(),
                (Action::SystemdFreeze, UnitOp::Freeze) => true,
                (Action::SystemdCpuQuota { percent }, UnitOp::SetProperty(p)) => p
                    == UnitProperty::CpuQuotaPerSecUSec((percent * 10_000) as u64),
                (Action::SystemdCpuWeight { weight }, UnitOp::SetProperty(p)) => p
                    == UnitProperty::CpuWeight(weight),
                _ => false,
            },
    {
        match self {
            Action::Ecore { ecore } => UnitOp::Affinity(ecore.apply()),
            Action::SystemdFreeze => UnitOp::Freeze,
            Action::SystemdCpuQuota { percent } => UnitOp::SetProperty(
                systemd_cpu_quota::apply(*percent),
            ),
            Action::SystemdCpuWeight { weight } => UnitOp::SetProperty(
                systemd_cpu_weight::apply(*weight),
            ),
        }
    }

    /// What reverting the action does to a unit.
    pub fn revert(&self) -> (r: UnitOp<'_>)
        requires
            self.wf(),
        ensures
            match (*self, r) {
                (Action::Ecore { ecore }, UnitOp::Affinity(s)) => s.wf() && s.cpus()
                    == ecore.allcores().cpus(),
                (Action::SystemdFreeze, UnitOp::Thaw) => true,
                (Action::SystemdCpuQuota { .. }, UnitOp::SetProperty(p)) => p
                    == UnitProperty::CpuQuotaPerSecUSec(CPU_QUOTA_UNSET),
                (Action::SystemdCpuWeight { .. }, UnitOp::SetProperty(p)) => p
                    == UnitProperty::CpuWeight(CPU_WEIGHT_DEFAULT),
                _ => false,
            },
    {
        match self {
            Action::Ecore { ecore } => UnitOp::Affinity(ecore.revert()),
            Action::SystemdFreeze => UnitOp::Thaw,
            Action::SystemdCpuQuota { .. } => UnitOp::SetProperty(systemd_cpu_quota::revert()),
            Action::SystemdCpuWeight { .. } => UnitOp::SetProperty(systemd_cpu_weight::revert()),
        }
    }
}

} // verus!
