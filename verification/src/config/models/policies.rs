use super::action::ActionConfig;
use vstd::prelude::*;

verus! {

/// The actions of one policy, applied in order.
#[derive(Debug, Clone)]
pub struct PolicyConfig {
    actions: Vec<ActionConfig>,
}

impl PolicyConfig {
    pub fn new(actions: Vec<ActionConfig>) -> (r: Self)
        ensures
            r.spec_actions() == actions@,
    {
        PolicyConfig { actions }
    }

    pub fn actions(&self) -> (r: &Vec<ActionConfig>)
        ensures
            r@ == self.spec_actions(),
    {
        &self.actions
    }

    pub closed spec fn spec_actions(self) -> Seq<ActionConfig> {
        self.actions@
    }
}

/// The five effective policies, each with its own action list.
#[derive(Debug, Clone)]
pub struct PoliciesConfig {
    pub performance: PolicyConfig,
    pub background_idle: PolicyConfig,
    pub background_busy: PolicyConfig,
    pub nap_idle: PolicyConfig,
    pub nap_busy: PolicyConfig,
}

/// The default policies: full weight when in use, weight 1 in the
/// background (plus E-cores when idle), and a CPU quota when napping (10%
/// when idle, 50% when busy, both on E-cores).
pub open spec fn default_policies_spec(p: PoliciesConfig) -> bool {
    &&& p.performance.spec_actions() =~= seq![ActionConfig::SystemdCpuWeight { weight: 100 }]
    &&& p.background_idle.spec_actions() =~= seq![
        ActionConfig::SystemdCpuWeight { weight: 1 },
        ActionConfig::Ecore,
    ]
    &&& p.background_busy.spec_actions() =~= seq![ActionConfig::SystemdCpuWeight { weight: 1 }]
    &&& p.nap_idle.spec_actions() =~= seq![
        ActionConfig::SystemdCpuQuota { percent: 10 },
        ActionConfig::Ecore,
    ]
    &&& p.nap_busy.spec_actions() =~= seq![
        ActionConfig::SystemdCpuQuota { percent: 50 },
        ActionConfig::Ecore,
    ]
}

impl Default for PoliciesConfig {
    fn default() -> (r: Self)
        ensures
            default_policies_spec(r),
    {
        PoliciesConfig {
            performance: PolicyConfig::new(vec![ActionConfig::SystemdCpuWeight { weight: 100 }]),
            background_idle: PolicyConfig::new(
                vec![ActionConfig::SystemdCpuWeight { weight: 1 }, ActionConfig::Ecore],
            ),
            background_busy: PolicyConfig::new(vec![ActionConfig::SystemdCpuWeight { weight: 1 }]),
            nap_idle: PolicyConfig::new(
                vec![ActionConfig::SystemdCpuQuota { percent: 10 }, ActionConfig::Ecore],
            ),
            nap_busy: PolicyConfig::new(
                vec![ActionConfig::SystemdCpuQuota { percent: 50 }, ActionConfig::Ecore],
            ),
        }
    }
}

} // verus!
