//! The actions of each unit policy. Applying a policy runs its actions in
//! order and, when one fails, reverts the ones already applied in reverse
//! order; reverting runs them in reverse order and, when one fails,
//! re-applies the ones already reverted. The daemon runs both as a
//! [`RollbackRun`](super::rollback::RollbackRun) over
//! [`PolicyRouter::map_policy_to_actions`].
use super::models::policy::Policy;
use super::rollback::RunOrder;
use crate::action::ecore::ECoreAction;
use crate::actions::{action_of, Action};
use crate::config::models::action::ActionConfig;
use crate::config::models::policies::PoliciesConfig;
use vstd::prelude::*;

verus! {

/// The configured actions of a policy.
pub open spec fn configured_actions(config: PoliciesConfig, policy: Policy) -> Seq<ActionConfig> {
    match policy {
        Policy::Performance => config.performance.spec_actions(),
        Policy::BackgroundIdle => config.background_idle.spec_actions(),
        Policy::BackgroundBusy => config.background_busy.spec_actions(),
        Policy::NapIdle => config.nap_idle.spec_actions(),
        Policy::NapBusy => config.nap_busy.spec_actions(),
    }
}

/// Some policy of the configuration has an E-core action.
pub open spec fn uses_ecore(config: PoliciesConfig) -> bool {
    exists|p: Policy, i: int|
        0 <= i < configured_actions(config, p).len() && #[trigger] configured_actions(
            config,
            p,
        )[i] == ActionConfig::Ecore
}

/// The order in which a run over a policy's actions takes them: applying
/// goes first to last, reverting last to first.
pub open spec fn run_order_of(reverting: bool) -> RunOrder {
    if reverting {
        RunOrder::Reversed
    } else {
        RunOrder::InOrder
    }
}

pub fn run_order(reverting: bool) -> (r: RunOrder)
    ensures
        r == run_order_of(reverting),
{
    if reverting {
        RunOrder::Reversed
    } else {
        RunOrder::InOrder
    }
}

proof fn lemma_ecore_available(config: PoliciesConfig, has_ecore: bool, p: Policy)
    requires
        uses_ecore(config) ==> has_ecore,
    ensures
        forall|i: int|
            0 <= i < configured_actions(config, p).len() && configured_actions(config, p)[i]
                == ActionConfig::Ecore ==> has_ecore,
{
    assert forall|i: int|
        0 <= i < configured_actions(config, p).len() && configured_actions(config, p)[i]
            == ActionConfig::Ecore implies has_ecore by {
        assert(uses_ecore(config));
    }
}

pub struct PolicyRouter {
    performance: Vec<Action>,
    background_idle: Vec<Action>,
    background_busy: Vec<Action>,
    nap_idle: Vec<Action>,
    nap_busy: Vec<Action>,
}

/// The actions of a configured list, in order.
fn build_actions(actions: &Vec<ActionConfig>, ecore: Option<&ECoreAction>) -> (r: Vec<Action>)
    requires
        ecore matches Some(e) ==> e.wf(),
        forall|i: int| 0 <= i < actions@.len() && actions@[i] == ActionConfig::Ecore ==> ecore is Some,
    ensures
        r@.len() == actions@.len(),
        forall|i: int|
            0 <= i < r@.len() ==> (#[trigger] r@[i]).wf() && action_of(r@[i], actions@[i], match ecore {
                Some(e) => Some(*e),
                None => None,
            }),
{
    let mut r: Vec<Action> = Vec::new();
    let mut i: usize = 0;
    while i < actions.len()
        invariant
            i <= actions@.len(),
            ecore matches Some(e) ==> e.wf(),
            forall|j: int| 0 <= j < actions@.len() && actions@[j] == ActionConfig::Ecore ==> ecore is Some,
            r@.len() == i,
            forall|j: int|
                0 <= j < i ==> (#[trigger] r@[j]).wf() && action_of(r@[j], actions@[j], match ecore {
                    Some(e) => Some(*e),
                    None => None,
                }),
        decreases actions@.len() - i,
    {
        r.push(Action::from_config(&actions[i], ecore));
        i = i + 1;
    }
    r
}

impl PolicyRouter {
    /// The actions of a policy.
    pub closed spec fn spec_actions(&self, policy: Policy) -> Seq<Action> {
        match policy {
            Policy::Performance => self.performance@,
            Policy::BackgroundIdle => self.background_idle@,
            Policy::BackgroundBusy => self.background_busy@,
            Policy::NapIdle => self.nap_idle@,
            Policy::NapBusy => self.nap_busy@,
        }
    }

    /// The routing of a configuration: each policy gets the actions its
    /// configuration names, in order. E-core actions carry the E-core
    /// layout `ecore`, which must be there when any is configured.
    pub fn from_config(config: &PoliciesConfig, ecore: Option<&ECoreAction>) -> (r: Self)
        requires
            uses_ecore(*config) ==> ecore is Some,
            ecore matches Some(e) ==> e.wf(),
        ensures
            forall|p: Policy|
                #![trigger r.spec_actions(p)]
                r.spec_actions(p).len() == configured_actions(*config, p).len() && forall|i: int|
                    0 <= i < r.spec_actions(p).len() ==> (#[trigger] r.spec_actions(p)[i]).wf()
                        && action_of(r.spec_actions(p)[i], configured_actions(*config, p)[i], match ecore {
                        Some(e) => Some(*e),
                        None => None,
                    }),
    {
        proof {
            lemma_ecore_available(*config, ecore is Some, Policy::Performance);
            lemma_ecore_available(*config, ecore is Some, Policy::BackgroundIdle);
            lemma_ecore_available(*config, ecore is Some, Policy::BackgroundBusy);
            lemma_ecore_available(*config, ecore is Some, Policy::NapIdle);
            lemma_ecore_available(*config, ecore is Some, Policy::NapBusy);
        }
        let r = PolicyRouter {
            performance: build_actions(config.performance.actions(), ecore),
            background_idle: build_actions(config.background_idle.actions(), ecore),
            background_busy: build_actions(config.background_busy.actions(), ecore),
            nap_idle: build_actions(config.nap_idle.actions(), ecore),
            nap_busy: build_actions(config.nap_busy.actions(), ecore),
        };
        proof {
            assert forall|p: Policy|
                #![trigger r.spec_actions(p)]
                r.spec_actions(p).len() == configured_actions(*config, p).len() && forall|i: int|
                    0 <= i < r.spec_actions(p).len() ==> (#[trigger] r.spec_actions(p)[i]).wf()
                        && action_of(r.spec_actions(p)[i], configured_actions(*config, p)[i], match ecore {
                        Some(e) => Some(*e),
                        None => None,
                    }) by {
                match p {
                    Policy::Performance => {},
                    Policy::BackgroundIdle => {},
                    Policy::BackgroundBusy => {},
                    Policy::NapIdle => {},
                    Policy::NapBusy => {},
                }
            }
        }
        r
    }

    /// The actions of a policy, in the order applying runs them.
    pub fn map_policy_to_actions(&self, policy: Policy) -> (r: &[Action])
        ensures
            r@ == self.spec_actions(policy),
    {
        match policy {
            Policy::Performance => self.performance.as_slice(),
            Policy::BackgroundIdle => self.background_idle.as_slice(),
            Policy::BackgroundBusy => self.background_busy.as_slice(),
            Policy::NapIdle => self.nap_idle.as_slice(),
            Policy::NapBusy => self.nap_busy.as_slice(),
        }
    }
}

} // verus!
