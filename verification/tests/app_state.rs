use app_nap::action::ecore::ECoreAction;
use app_nap::action::from_config;
use app_nap::action::systemd::UnitProperty;
use app_nap::action::{Action, ActionOp};
use app_nap::cgroup::{CgroupPath, UnitPath};
use app_nap::config::models::cpu_load_polling::ConfirmTicks;
use app_nap::daemon::models::load_tracker::TickReading;
use app_nap::config::model::{Action as ActionConfig, Tiers};
use app_nap::daemon::app_state::{Load, Tier};
use app_nap::daemon::models::app_state::{AppState, CgroupRefreshResult};
use app_nap::daemon::models::policy::Policy;
use app_nap::daemon::models::wake_signals::WakeSignals;
use app_nap::daemon::process::Process;
use app_nap::daemon::tier_policy::PolicyKey;
use app_nap::daemon::tier_policy_set::TierPolicySet;

fn unit(name: &str) -> UnitPath {
    let line = format!("0::/user.slice/user-1000.slice/user@1000.service/app.slice/{name}\n");
    UnitPath::from_cgroup_path(CgroupPath::from_cgroup_full(&line).unwrap()).unwrap()
}

#[test]
fn an_app_votes_by_its_windows() {
    let signals = WakeSignals::default();
    let mut app: AppState<(), (f64, f64)> = AppState::new("kate".into(), 7);
    assert!(!app.has_windows());
    app.window_added("w".into(), false, true, &signals);
    assert!(app.has_windows());
    assert_eq!(app.get_voted_policy(), Policy::Performance);
    assert!(!app.is_polled());
    app.window_active_changed("w", false, &signals);
    assert_eq!(app.get_voted_policy(), Policy::BackgroundBusy);
    app.window_minimized_changed("w", true, &signals);
    assert_eq!(app.get_voted_policy(), Policy::NapBusy);
    assert!(app.is_polled());
    app.window_removed("w", &signals);
    assert!(!app.has_windows());
}

#[test]
fn an_inhibited_app_stays_in_performance() {
    let mut signals = WakeSignals::default();
    signals.powerdevil_apps = vec!["kate".to_string()];
    let mut app: AppState<(), (f64, f64)> = AppState::new("kate".into(), 7);
    assert_eq!(
        app.refresh_cgroups(Some(vec![unit("app-org.kde.kate-3.scope")])),
        CgroupRefreshResult::Changed
    );
    app.window_added("w".into(), true, false, &signals);
    assert_eq!(app.get_voted_policy(), Policy::Performance);
    assert_eq!(
        app.refresh_cgroups(Some(vec![unit("app-org.kde.kate-3.scope")])),
        CgroupRefreshResult::NoChange
    );
    assert_eq!(app.refresh_cgroups(None), CgroupRefreshResult::NoChange);
    assert_eq!(app.get_cgroups().len(), 1);
}

#[test]
fn a_new_process_has_no_window() {
    let process = Process::new();
    assert!(process.windows.is_empty());
    assert!(!process.is_napping);
}

#[test]
fn tier_policies_fall_back_to_the_base_slot() {
    let set: TierPolicySet<()> = TierPolicySet::from_config(&Tiers::default(), None, ());
    assert_eq!(set.resolve(Tier::Background, Load::Idle), Some(PolicyKey::BackgroundBusy));
    assert_eq!(set.resolve(Tier::Nap, Load::Busy), Some(PolicyKey::NapIdle));
    assert_eq!(set.resolve(Tier::Unknown, Load::Busy), None);
    assert_eq!(set.policy(PolicyKey::Performance).actions().len(), 1);
}

#[test]
fn configured_actions_become_backends() {
    let ecore = ECoreAction::new("4-7", "0-7").unwrap();
    let configs = [
        ActionConfig::SystemdCpuQuota { percent: 10 },
        ActionConfig::Ecore,
        ActionConfig::Signal,
    ];
    let with_ecore = from_config(&configs, Some(&ecore));
    assert_eq!(with_ecore.len(), 3);
    assert!(matches!(with_ecore[0], Action::SystemdCpuQuota { quota: 100_000 }));
    match with_ecore[0].apply() {
        ActionOp::SetProperty(p) => assert_eq!(p, UnitProperty::CpuQuotaPerSecUSec(100_000)),
        _ => panic!("a quota sets a property"),
    }
    assert!(matches!(with_ecore[2].apply(), ActionOp::Stop));
    assert!(matches!(with_ecore[2].revert(), ActionOp::Cont));
    // Without the E-core layout the E-core action is left out.
    let without = from_config(&configs, None);
    assert_eq!(without.len(), 2);
    assert!(matches!(without[1], Action::Signal));
}

fn idle_reading() -> Option<TickReading<(f64, f64)>> {
    Some(TickReading {
        usage_below_idle: true,
        throttle_below_idle: true,
        usage_above_busy: false,
        throttle_above_busy: false,
        metrics: (0.0, 0.0),
    })
}

#[test]
fn a_confirmed_idle_load_recomputes_the_vote_from_the_windows() {
    let signals = WakeSignals::default();
    let config = ConfirmTicks::default();
    let mut app: AppState<u32, (f64, f64)> = AppState::new("kate".into(), 7);
    app.window_added("w".into(), true, false, &signals);
    assert_eq!(app.get_voted_policy(), Policy::NapBusy);
    // The first sample only becomes the baseline.
    app.on_cpu_usage_tick(&signals, 1, idle_reading(), &config);
    assert_eq!(app.last_cpu_sample(), Some(&1));
    assert_eq!(app.get_voted_policy(), Policy::NapBusy);
    // Idle needs two ticks to be confirmed.
    app.on_cpu_usage_tick(&signals, 2, idle_reading(), &config);
    assert_eq!(app.get_voted_policy(), Policy::NapBusy);
    app.on_cpu_usage_tick(&signals, 3, idle_reading(), &config);
    assert_eq!(app.get_voted_policy(), Policy::NapIdle);
    assert!(app.is_polled());
    // A reading-less tick changes nothing.
    app.on_cpu_usage_tick(&signals, 4, None, &config);
    assert_eq!(app.last_cpu_sample(), Some(&3));
}

#[test]
fn an_app_lists_each_cgroup_once() {
    let mut app: AppState<(), (f64, f64)> = AppState::new("kate".into(), 7);
    let kate = unit("app-org.kde.kate-3.scope");
    assert_eq!(
        app.refresh_cgroups(Some(vec![kate.duplicate(), kate.duplicate()])),
        CgroupRefreshResult::Changed
    );
    assert_eq!(app.get_cgroups().len(), 1);
}
