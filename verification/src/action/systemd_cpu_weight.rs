use super::systemd::{UnitProperty, CPU_WEIGHT_DEFAULT};
use std::sync::Arc;
use vstd::prelude::*;

verus! {

/// Napping by a systemd CPU weight, through the client `C`.
pub struct SystemdCpuWeightAction<C> {
    client: Arc<C>,
    weight: u64,
}

impl<C> SystemdCpuWeightAction<C> {
    pub fn new(client: Arc<C>, weight: u64) -> (r: Self)
        ensures
            r.spec_weight() == weight,
            r.spec_client() == client,
    {
        Self { client, weight }
    }

    pub closed spec fn spec_weight(self) -> u64 {
        self.weight
    }

    pub closed spec fn spec_client(self) -> Arc<C> {
        self.client
    }

    pub fn client(&self) -> (r: &Arc<C>)
        ensures
            *r == self.spec_client(),
    {
        &self.client
    }

    /// The property that applying sets on each cgroup.
    pub fn apply(&self) -> (r: UnitProperty)
        ensures
            r == UnitProperty::CpuWeight(self.spec_weight()),
    {
        UnitProperty::CpuWeight(self.weight)
    }

    /// The property that reverting sets on each cgroup: the default weight.
    pub fn revert(&self) -> (r: UnitProperty)
        ensures
            r == UnitProperty::CpuWeight(CPU_WEIGHT_DEFAULT),
    {
        UnitProperty::CpuWeight(CPU_WEIGHT_DEFAULT)
    }
}

} // verus!
