//! The effective policies of the tier layout, as a set of tier policies.
use crate::action::ecore::ECoreAction;
use crate::action::{from_config, Action};
use crate::config::model::{Action as ActionConfig, Tiers};
use crate::daemon::policies::{base_load, built_from};
use crate::daemon::app_state::{Load, Tier};
use crate::daemon::tier_policy::{PolicyKey, TierPolicy};
use vstd::prelude::*;

verus! {

/// The five effective policies; the idle variant of `background` and the
/// busy variant of `nap` are optional. `C` is the systemd client the
/// daemon applies them through.
pub struct TierPolicySet<C> {
    performance: TierPolicy,
    background_busy: TierPolicy,
    background_idle: Option<TierPolicy>,
    nap_idle: TierPolicy,
    nap_busy: Option<TierPolicy>,
    systemd: C,
}

/// Effective policy for (tier, load). Load is ignored on performance; a
/// missing load variant falls back to the tier's base policy.
/// `None` for `Tier::Unknown` (nothing applied yet).
pub open spec fn tier_policy_key_for(
    tier: Tier,
    load: Load,
    has_background_idle: bool,
    has_nap_busy: bool,
) -> Option<PolicyKey> {
    match (tier, load) {
        (Tier::Performance, _) => Some(PolicyKey::Performance),
        (Tier::Background, Load::Busy) => Some(PolicyKey::BackgroundBusy),
        (Tier::Background, Load::Idle) => Some(
            if has_background_idle {
                PolicyKey::BackgroundIdle
            } else {
                PolicyKey::BackgroundBusy
            },
        ),
        (Tier::Nap, Load::Idle) => Some(PolicyKey::NapIdle),
        (Tier::Nap, Load::Busy) => Some(
            if has_nap_busy {
                PolicyKey::NapBusy
            } else {
                PolicyKey::NapIdle
            },
        ),
        (Tier::Unknown, _) => None,
    }
}

/// The tier a key is a policy of.
pub open spec fn slot_tier(k: PolicyKey) -> Tier {
    match k {
        PolicyKey::Performance => Tier::Performance,
        PolicyKey::BackgroundBusy | PolicyKey::BackgroundIdle => Tier::Background,
        PolicyKey::NapIdle | PolicyKey::NapBusy => Tier::Nap,
    }
}

/// The load a key's slot is for; performance has one slot for both.
pub open spec fn slot_load(k: PolicyKey) -> Option<Load> {
    match k {
        PolicyKey::Performance => None,
        PolicyKey::BackgroundBusy | PolicyKey::NapBusy => Some(Load::Busy),
        PolicyKey::BackgroundIdle | PolicyKey::NapIdle => Some(Load::Idle),
    }
}

/// The key for a tier and load is a slot of that tier, `None` only before
/// any tier is known. Below performance it is the slot for the given load,
/// unless that load is the tier's optional variant and it is not
/// configured: then it is the base slot. So an idle load never depends on
/// whether `nap.busy` is configured, nor a busy load on `background.idle`.
pub proof fn lemma_tier_policy_key_choice(
    tier: Tier,
    load: Load,
    has_background_idle: bool,
    has_nap_busy: bool,
)
    ensures
        tier_policy_key_for(tier, load, has_background_idle, has_nap_busy) is None <==> tier
            == Tier::Unknown,
        tier_policy_key_for(tier, load, has_background_idle, has_nap_busy) matches Some(k)
            ==> slot_tier(k) == tier,
        tier_policy_key_for(tier, load, has_background_idle, has_nap_busy) matches Some(k) ==> (
        tier != Tier::Performance ==> slot_load(k) == Some(
            if load == base_load(tier) || (tier == Tier::Background && has_background_idle) || (
            tier == Tier::Nap && has_nap_busy) {
                load
            } else {
                base_load(tier)
            },
        )),
        tier_policy_key_for(tier, Load::Idle, has_background_idle, has_nap_busy)
            == tier_policy_key_for(tier, Load::Idle, has_background_idle, !has_nap_busy),
        tier_policy_key_for(tier, Load::Busy, has_background_idle, has_nap_busy)
            == tier_policy_key_for(tier, Load::Busy, !has_background_idle, has_nap_busy),
{
}

/// The configured actions of the policy a key stands for: a missing load
/// variant is its tier's base slot.
pub open spec fn tier_configured_for(tiers: Tiers, key: PolicyKey) -> Seq<ActionConfig> {
    match key {
        PolicyKey::Performance => tiers.performance.actions@,
        PolicyKey::BackgroundBusy => tiers.background.actions@,
        PolicyKey::BackgroundIdle => match tiers.background.idle {
            Some(c) => c.actions@,
            None => tiers.background.actions@,
        },
        PolicyKey::NapIdle => tiers.nap.actions@,
        PolicyKey::NapBusy => match tiers.nap.busy {
            Some(c) => c.actions@,
            None => tiers.nap.actions@,
        },
    }
}

impl<C> TierPolicySet<C> {
    pub closed spec fn has_background_idle(&self) -> bool {
        self.background_idle is Some
    }

    pub closed spec fn has_nap_busy(&self) -> bool {
        self.nap_busy is Some
    }

    /// The action list each key stands for: a missing variant is its tier's
    /// base policy.
    pub closed spec fn actions_of(&self, key: PolicyKey) -> Seq<Action> {
        match key {
            PolicyKey::Performance => self.performance.spec_actions(),
            PolicyKey::BackgroundBusy => self.background_busy.spec_actions(),
            PolicyKey::BackgroundIdle => match self.background_idle {
                Some(p) => p.spec_actions(),
                None => self.background_busy.spec_actions(),
            },
            PolicyKey::NapIdle => self.nap_idle.spec_actions(),
            PolicyKey::NapBusy => match self.nap_busy {
                Some(p) => p.spec_actions(),
                None => self.nap_idle.spec_actions(),
            },
        }
    }

    /// Every action of every policy is well formed.
    pub closed spec fn wf(&self) -> bool {
        forall|k: PolicyKey, i: int|
            0 <= i < self.actions_of(k).len() ==> (#[trigger] self.actions_of(k)[i]).wf()
    }

    /// Map config `[tiers.*]` slots into effective policies. `ecore` is the
    /// E-core backend as the daemon could build it.
    pub fn from_config(tiers: &Tiers, ecore: Option<&ECoreAction>, systemd: C) -> (r: Self)
        requires
            ecore matches Some(e) ==> e.wf(),
        ensures
            r.wf(),
            r.has_background_idle() == tiers.background.idle is Some,
            r.has_nap_busy() == tiers.nap.busy is Some,
            r.spec_systemd() == systemd,
            forall|k: PolicyKey|
                built_from(
                    #[trigger] r.actions_of(k),
                    tier_configured_for(*tiers, k),
                    match ecore {
                        Some(e) => Some(*e),
                        None => None,
                    },
                ),
    {
        let performance = TierPolicy::new(from_config(tiers.performance.actions.as_slice(), ecore));
        let background_busy = TierPolicy::new(
            from_config(tiers.background.actions.as_slice(), ecore),
        );
        let background_idle = match &tiers.background.idle {
            Some(cfg) => Some(TierPolicy::new(from_config(cfg.actions.as_slice(), ecore))),
            None => None,
        };
        let nap_idle = TierPolicy::new(from_config(tiers.nap.actions.as_slice(), ecore));
        let nap_busy = match &tiers.nap.busy {
            Some(cfg) => Some(TierPolicy::new(from_config(cfg.actions.as_slice(), ecore))),
            None => None,
        };
        let r = Self { performance, background_busy, background_idle, nap_idle, nap_busy, systemd };
        proof {
            let e = match ecore {
                Some(e) => Some(*e),
                None => None,
            };
            assert forall|k: PolicyKey| built_from(#[trigger] r.actions_of(k), tier_configured_for(*tiers, k), e) by {
                match k {
                    PolicyKey::Performance => {},
                    PolicyKey::BackgroundBusy => {},
                    PolicyKey::BackgroundIdle => {},
                    PolicyKey::NapIdle => {},
                    PolicyKey::NapBusy => {},
                }
            }
        }
        r
    }

    /// Effective policy for (tier, load). Load is ignored on performance; a
    /// missing load variant falls back to the tier's base policy.
    /// `None` for `Tier::Unknown` (nothing applied yet).
    pub fn resolve(&self, tier: Tier, load: Load) -> (r: Option<PolicyKey>)
        ensures
            r == tier_policy_key_for(tier, load, self.has_background_idle(), self.has_nap_busy()),
    {
        match (tier, load) {
            (Tier::Performance, _) => Some(PolicyKey::Performance),
            (Tier::Background, Load::Busy) => Some(PolicyKey::BackgroundBusy),
            (Tier::Background, Load::Idle) => Some(
                if self.background_idle.is_some() {
                    PolicyKey::BackgroundIdle
                } else {
                    PolicyKey::BackgroundBusy
                },
            ),
            (Tier::Nap, Load::Idle) => Some(PolicyKey::NapIdle),
            (Tier::Nap, Load::Busy) => Some(
                if self.nap_busy.is_some() {
                    PolicyKey::NapBusy
                } else {
                    PolicyKey::NapIdle
                },
            ),
            (Tier::Unknown, _) => None,
        }
    }

    /// The actions of the policy `key` stands for.
    pub fn policy(&self, key: PolicyKey) -> (r: &TierPolicy)
        ensures
            r.spec_actions() == self.actions_of(key),
    {
        match key {
            PolicyKey::Performance => &self.performance,
            PolicyKey::BackgroundBusy => &self.background_busy,
            PolicyKey::BackgroundIdle => match &self.background_idle {
                Some(p) => p,
                None => &self.background_busy,
            },
            PolicyKey::NapIdle => &self.nap_idle,
            PolicyKey::NapBusy => match &self.nap_busy {
                Some(p) => p,
                None => &self.nap_idle,
            },
        }
    }

    pub closed spec fn spec_systemd(&self) -> C {
        self.systemd
    }

    /// The systemd client.
    pub fn systemd(&self) -> (r: &C)
        ensures
            *r == self.spec_systemd(),
    {
        &self.systemd
    }
}

} // verus!
