//! The nap backends of the tier layout, and what applying and reverting
//! each one does to an app's cgroups. The daemon performs the operations.
pub mod ecore;
pub mod from_config;
pub mod signal;
pub mod systemd;
pub mod systemd_cpu_quota;
pub mod systemd_cpu_weight;
pub mod systemd_freeze;

use ecore::{CpuSet, ECoreAction};
use systemd::{
    reset_cpu_weight, set_cpu_quota, set_cpu_weight, unset_cpu_quota, UnitProperty,
    CPU_QUOTA_UNSET, CPU_WEIGHT_DEFAULT,
};
use vstd::prelude::*;

pub use from_config::from_config;

verus! {

/// One nap backend.
pub enum Action {
    /// Stop every process of the cgroups with `SIGSTOP`; resume with
    /// `SIGCONT`.
    Signal,
    /// Pin every process to the E-cores; restore all online cores.
    Ecore(Box<ECoreAction>),
    /// Freeze the units with systemd; thaw them.
    SystemdFreeze,
    /// Set a systemd CPU quota; lift it.
    SystemdCpuQuota { quota: u64 },
    /// Set a systemd CPU weight; restore the default weight.
    SystemdCpuWeight { weight: u64 },
}

/// An operation on the processes or units of a set of cgroups.
pub enum ActionOp<'a> {
    /// Send `SIGSTOP` to every process.
    Stop,
    /// Send `SIGCONT` to every process.
    Cont,
    /// Set the CPU affinity of every process.
    Affinity(&'a CpuSet),
    /// Freeze every unit.
    Freeze,
    /// Thaw every unit.
    Thaw,
    /// Set a property on every unit.
    SetProperty(UnitProperty),
}

impl Action {
    /// Well formed: the E-core sets are well formed.
    pub open spec fn wf(&self) -> bool {
        match self {
            Action::Ecore(e) => e.wf(),
            _ => true,
        }
    }

    /// What applying the backend does.
    pub fn apply(&self) -> (r: ActionOp<'_>)
        requires
            self.wf(),
        ensures
            match (*self, r) {
                (Action::Signal, ActionOp::Stop) => true,
                (Action::Ecore(e), ActionOp::Affinity(s)) => s.wf() && s.cpus() == e.ecores().cpus(),
                (Action::SystemdFreeze, ActionOp::Freeze) => true,
                (Action::SystemdCpuQuota { quota }, ActionOp::SetProperty(p)) => p
                    == UnitProperty::CpuQuotaPerSecUSec(quota),
                (Action::SystemdCpuWeight { weight }, ActionOp::SetProperty(p)) => p
                    == UnitProperty::CpuWeight(weight),
                _ => false,
            },
    {
        match self {
            Action::Signal => ActionOp::Stop,
            Action::Ecore(action) => ActionOp::Affinity(action.apply()),
            Action::SystemdFreeze => ActionOp::Freeze,
            Action::SystemdCpuQuota { quota } => ActionOp::SetProperty(set_cpu_quota(*quota)),
            Action::SystemdCpuWeight { weight } => ActionOp::SetProperty(set_cpu_weight(*weight)),
        }
    }

    /// What reverting the backend does.
    pub fn revert(&self) -> (r: ActionOp<'_>)
        requires
            self.wf(),
        ensures
            match (*self, r) {
                (Action::Signal, ActionOp::Cont) => true,
                (Action::Ecore(e), ActionOp::Affinity(s)) => s.wf() && s.cpus()
                    == e.allcores().cpus(),
                (Action::SystemdFreeze, ActionOp::Thaw) => true,
                (Action::SystemdCpuQuota { .. }, ActionOp::SetProperty(p)) => p
                    == UnitProperty::CpuQuotaPerSecUSec(CPU_QUOTA_UNSET),
                (Action::SystemdCpuWeight { .. }, ActionOp::SetProperty(p)) => p
                    == UnitProperty::CpuWeight(CPU_WEIGHT_DEFAULT),
                _ => false,
            },
    {
        match self {
            Action::Signal => ActionOp::Cont,
            Action::Ecore(action) => ActionOp::Affinity(action.revert()),
            Action::SystemdFreeze => ActionOp::Thaw,
            Action::SystemdCpuQuota { .. } => ActionOp::SetProperty(unset_cpu_quota()),
            Action::SystemdCpuWeight { .. } => ActionOp::SetProperty(reset_cpu_weight()),
        }
    }
}

} // verus!
