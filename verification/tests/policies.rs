use app_nap::daemon::app_state::{Load, Tier};
use app_nap::daemon::policies::resolve_policy_key;
use app_nap::daemon::policy::PolicyKey;

#[test]
fn performance_ignores_load_and_variants() {
    for load in [Load::Busy, Load::Idle] {
        assert_eq!(
            resolve_policy_key(Tier::Performance, load, false, false),
            Some(PolicyKey::Performance)
        );
    }
}

#[test]
fn background_busy_uses_busy_policy() {
    assert_eq!(
        resolve_policy_key(Tier::Background, Load::Busy, true, true),
        Some(PolicyKey::BackgroundBusy)
    );
}

#[test]
fn background_idle_uses_idle_policy_when_defined() {
    assert_eq!(
        resolve_policy_key(Tier::Background, Load::Idle, true, false),
        Some(PolicyKey::BackgroundIdle)
    );
}

#[test]
fn background_idle_falls_back_to_busy_when_not_defined() {
    assert_eq!(
        resolve_policy_key(Tier::Background, Load::Idle, false, true),
        Some(PolicyKey::BackgroundBusy)
    );
}

#[test]
fn nap_idle_uses_idle_policy() {
    assert_eq!(
        resolve_policy_key(Tier::Nap, Load::Idle, false, false),
        Some(PolicyKey::NapIdle)
    );
}

#[test]
fn nap_busy_uses_busy_policy_when_defined() {
    assert_eq!(
        resolve_policy_key(Tier::Nap, Load::Busy, false, true),
        Some(PolicyKey::NapBusy)
    );
}

#[test]
fn nap_busy_falls_back_to_idle_when_not_defined() {
    assert_eq!(
        resolve_policy_key(Tier::Nap, Load::Busy, true, false),
        Some(PolicyKey::NapIdle)
    );
}

#[test]
fn unknown_tier_resolves_to_nothing() {
    for load in [Load::Busy, Load::Idle] {
        assert_eq!(resolve_policy_key(Tier::Unknown, load, true, true), None);
    }
}

#[test]
fn policy_keys_have_their_names() {
    assert_eq!(PolicyKey::BackgroundIdle.as_str(), "background-idle");
    assert_eq!(Tier::Unknown.as_str(), "unknown");
    assert_eq!(Load::Busy.as_str(), "busy");
}
