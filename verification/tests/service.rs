use app_nap::daemon::app_state::Tier;
use app_nap::daemon::service::resolve_next_tier;

#[test]
fn active_window_or_inhibitor_yields_performance() {
    assert_eq!(
        resolve_next_tier(true, false, false, false),
        Tier::Performance
    );
    assert_eq!(
        resolve_next_tier(false, false, true, false),
        Tier::Performance
    );
}

#[test]
fn unminimized_window_or_media_yields_background() {
    assert_eq!(
        resolve_next_tier(false, true, false, false),
        Tier::Background
    );
    assert_eq!(
        resolve_next_tier(false, false, false, true),
        Tier::Background
    );
}

#[test]
fn minimized_inactive_with_no_media_yields_nap() {
    assert_eq!(resolve_next_tier(false, false, false, false), Tier::Nap);
}

#[test]
fn active_overrides_media_and_inactive_windows() {
    assert_eq!(
        resolve_next_tier(true, false, false, true),
        Tier::Performance
    );
    assert_eq!(
        resolve_next_tier(true, true, false, false),
        Tier::Performance
    );
}

#[test]
fn inhibitor_overrides_media_and_unminimized() {
    assert_eq!(
        resolve_next_tier(false, true, true, true),
        Tier::Performance
    );
}

use app_nap::config::model::Tiers;
use app_nap::daemon::app_state::{AppState, Load};
use app_nap::daemon::policies::Policies;
use app_nap::daemon::policy::PolicyKey;
use app_nap::daemon::service::{
    add_window, effective_transition, is_watched, refresh_cgroups, remove_window, settle_tier,
    window_active_changed, window_minimize_changed,
};
use app_nap::daemon::transition::TransitionStep;

fn app() -> AppState<(), (f64, f64)> {
    AppState::new("firefox".into(), vec!["/app.slice/app-firefox".into()])
}

#[test]
fn a_new_window_is_active_and_settles_to_performance() {
    let mut app = app();
    add_window(&mut app, "w1");
    settle_tier(&mut app, false, false);
    assert_eq!(app.tier, Tier::Performance);
    assert!(!is_watched(&app));
    assert!(window_minimize_changed(&mut app, "w1", true));
    assert!(window_active_changed(&mut app, "w1", false));
    settle_tier(&mut app, false, true);
    assert_eq!(app.tier, Tier::Background);
    assert!(is_watched(&app));
    settle_tier(&mut app, false, false);
    assert_eq!(app.tier, Tier::Nap);
    assert!(!window_active_changed(&mut app, "unknown", true));
    assert!(remove_window(&mut app, "w1"));
}

#[test]
fn a_changed_cgroup_set_drops_the_baseline() {
    let mut app = app();
    app.load_tracker.last_sample = Some(());
    app.applied = Some(PolicyKey::NapIdle);
    assert!(!refresh_cgroups(&mut app, vec!["/app.slice/app-firefox".into()]));
    assert_eq!(app.load_tracker.last_sample, Some(()));
    assert_eq!(app.applied, Some(PolicyKey::NapIdle));
    assert!(refresh_cgroups(&mut app, vec!["/app.slice/app-other".into()]));
    assert_eq!(app.load_tracker.last_sample, None);
    assert_eq!(app.applied, None);
    assert_eq!(app.cgroups, vec!["/app.slice/app-other".to_string()]);
}

#[test]
fn the_effective_policy_moves_only_when_it_changes() {
    let policies: Policies<()> = Policies::from_config(&Tiers::default(), None, ());
    let mut app = app();
    // Unknown tier: nothing to apply.
    assert!(effective_transition(&policies, &app).is_none());
    app.tier = Tier::Nap;
    app.load_tracker.load = Load::Busy;
    let t = effective_transition(&policies, &app).unwrap();
    // No busy variant for nap: the nap policy.
    assert_eq!(t.to, PolicyKey::NapIdle);
    assert_eq!(t.next_step(), TransitionStep::Apply(PolicyKey::NapIdle));
    app.applied = Some(PolicyKey::NapIdle);
    assert!(effective_transition(&policies, &app).is_none());
    app.tier = Tier::Performance;
    let mut t = effective_transition(&policies, &app).unwrap();
    assert_eq!(t.next_step(), TransitionStep::Revert(PolicyKey::NapIdle));
    t.record(false);
    // A failed revert keeps the old policy recorded.
    assert_eq!(t.next_step(), TransitionStep::Done(Some(PolicyKey::NapIdle)));
}
