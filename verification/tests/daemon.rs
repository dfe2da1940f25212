use app_nap::action::ecore::ECoreAction;
use app_nap::cgroup::cpu_stat::CpuStat;
use app_nap::cgroup::{CgroupPath, UnitPath};
use app_nap::config::models::cpu_load_polling::ConfirmTicks;
use app_nap::config::models::policies::PoliciesConfig;
use app_nap::daemon::models::cpu_sample::CpuSample;
use app_nap::daemon::models::load_tracker::{Load, TickReading};
use app_nap::daemon::models::policy::Policy;
use app_nap::daemon::policy_router::PolicyRouter;
use app_nap::daemon::transition::{TransitionStage, TransitionStep};
use app_nap::daemon::{sample_cpu, Daemon};

type TestDaemon = Daemon<CpuSample, (f64, f64)>;

fn unit(name: &str) -> UnitPath {
    let line = format!("0::/user.slice/user-1000.slice/user@1000.service/app.slice/{name}/main.scope\n");
    UnitPath::from_cgroup_path(CgroupPath::from_cgroup_full(&line).unwrap()).unwrap()
}

fn daemon() -> TestDaemon {
    let ecore = ECoreAction::new("8-11", "0-11").unwrap();
    let router = PolicyRouter::from_config(&PoliciesConfig::default(), Some(&ecore));
    Daemon::new(router, ConfirmTicks::default())
}

fn paths(v: &[UnitPath]) -> Vec<String> {
    let mut r: Vec<String> = v.iter().map(|p| p.as_str().to_string()).collect();
    r.sort();
    r
}

#[test]
fn an_active_window_votes_performance_for_its_unit() {
    let mut d = daemon();
    let firefox = unit("app-firefox-42.scope");
    let (affected, reverts) =
        d.window_added("w1".into(), 42, false, true, "firefox".into(), Some(vec![firefox.duplicate()]));
    assert_eq!(paths(&affected), vec![firefox.as_str().to_string()]);
    assert!(reverts.is_empty());
    assert_eq!(d.unit_vote(&firefox), Some(Policy::Performance));
    assert!(!d.has_polled_groups());
}

#[test]
fn window_state_moves_the_vote_down() {
    let mut d = daemon();
    let firefox = unit("app-firefox-42.scope");
    d.window_added("w1".into(), 42, false, true, "firefox".into(), Some(vec![firefox.duplicate()]));
    d.window_active_changed("w1", 42, false);
    // Not active but visible: background, and a new tracker reads busy.
    assert_eq!(d.unit_vote(&firefox), Some(Policy::BackgroundBusy));
    d.window_minimized_changed("w1", 42, true);
    assert_eq!(d.unit_vote(&firefox), Some(Policy::NapBusy));
    assert!(d.has_polled_groups());
    assert_eq!(d.polled_groups(), vec![42]);
}

#[test]
fn a_unit_applies_the_most_awake_vote() {
    let mut d = daemon();
    let shared = unit("app-konsole-1.scope");
    d.window_added("w1".into(), 42, true, false, "a".into(), Some(vec![shared.duplicate()]));
    assert_eq!(d.unit_vote(&shared), Some(Policy::NapBusy));
    d.window_added("w2".into(), 43, false, true, "b".into(), Some(vec![shared.duplicate()]));
    assert_eq!(d.unit_vote(&shared), Some(Policy::Performance));
}

#[test]
fn reconcile_plans_a_transition_and_records_it() {
    let mut d = daemon();
    let firefox = unit("app-firefox-42.scope");
    d.window_added("w1".into(), 42, false, true, "firefox".into(), Some(vec![firefox.duplicate()]));
    let t = d.plan_reconcile(&firefox).unwrap();
    assert_eq!(t.from, None);
    assert_eq!(t.to, Policy::Performance);
    assert_eq!(t.stage, TransitionStage::Applying);
    assert_eq!(t.next_step(), TransitionStep::Apply(Policy::Performance));
    d.record_applied(&firefox, Some(Policy::Performance));
    assert!(d.plan_reconcile(&firefox).is_none());

    d.window_minimized_changed("w1", 42, true);
    d.window_active_changed("w1", 42, false);
    let mut t = d.plan_reconcile(&firefox).unwrap();
    assert_eq!(t.next_step(), TransitionStep::Revert(Policy::Performance));
    t.record(true);
    assert_eq!(t.next_step(), TransitionStep::Apply(Policy::NapBusy));
    t.record(false);
    assert_eq!(t.next_step(), TransitionStep::Done(None));
}

#[test]
fn the_last_group_leaving_a_unit_hands_back_its_policy() {
    let mut d = daemon();
    let shared = unit("app-konsole-1.scope");
    d.window_added("w1".into(), 42, false, true, "a".into(), Some(vec![shared.duplicate()]));
    d.window_added("w2".into(), 43, false, true, "b".into(), Some(vec![shared.duplicate()]));
    d.record_applied(&shared, Some(Policy::Performance));

    let (affected, reverts) = d.window_removed("w1", 42);
    assert_eq!(paths(&affected), vec![shared.as_str().to_string()]);
    assert!(reverts.is_empty());
    assert_eq!(d.unit_vote(&shared), Some(Policy::Performance));

    let (_, reverts) = d.window_removed("w2", 43);
    assert_eq!(reverts.len(), 1);
    assert_eq!(reverts[0].policy, Policy::Performance);
    assert_eq!(reverts[0].unit_path, shared);
    assert_eq!(reverts[0].unit_name.as_str(), "app-konsole-1.scope");
    assert_eq!(d.unit_vote(&shared), None);
    assert!(d.list_apps().is_empty());
}

#[test]
fn a_group_with_windows_left_keeps_its_units() {
    let mut d = daemon();
    let firefox = unit("app-firefox-42.scope");
    d.window_added("w1".into(), 42, false, true, "firefox".into(), Some(vec![firefox.duplicate()]));
    d.window_added("w2".into(), 42, true, false, "firefox".into(), None);
    let (_, reverts) = d.window_removed("w1", 42);
    assert!(reverts.is_empty());
    // The minimized window is left: nap.
    assert_eq!(d.unit_vote(&firefox), Some(Policy::NapBusy));
    let apps = d.list_apps();
    assert_eq!(apps.len(), 1);
    assert_eq!(apps[0].window_pid, 42);
    assert_eq!(apps[0].comm, "firefox");
    assert_eq!(apps[0].window_count, 1);
    assert_eq!(apps[0].policy, Policy::NapBusy);
}

#[test]
fn moving_units_leaves_the_old_and_joins_the_new() {
    let mut d = daemon();
    let a = unit("app-a-1.scope");
    let b = unit("app-b-2.scope");
    d.window_added("w1".into(), 42, false, true, "x".into(), Some(vec![a.duplicate()]));
    d.record_applied(&a, Some(Policy::Performance));
    let (affected, reverts) =
        d.window_added("w2".into(), 42, false, true, "x".into(), Some(vec![b.duplicate()]));
    assert_eq!(paths(&affected), vec![a.as_str().to_string(), b.as_str().to_string()]);
    assert_eq!(reverts.len(), 1);
    assert_eq!(reverts[0].unit_path, a);
    assert_eq!(d.unit_vote(&a), None);
    assert_eq!(d.unit_vote(&b), Some(Policy::Performance));
}

#[test]
fn unknown_pids_change_nothing() {
    let mut d = daemon();
    assert!(d.window_minimized_changed("w", 7, true).is_empty());
    assert!(d.window_active_changed("w", 7, true).is_empty());
    let (affected, reverts) = d.window_removed("w", 7);
    assert!(affected.is_empty() && reverts.is_empty());
    assert!(d.group(7).is_none());
}

#[test]
fn wake_signals_recompute_the_votes() {
    let mut d = daemon();
    let player = unit("app-vlc-5.scope");
    d.window_added("w1".into(), 42, true, false, "vlc".into(), Some(vec![player.duplicate()]));
    assert_eq!(d.unit_vote(&player), Some(Policy::NapBusy));

    let affected = d.media_units_changed(vec![player.duplicate()]);
    assert_eq!(paths(&affected), vec![player.as_str().to_string()]);
    assert_eq!(d.unit_vote(&player), Some(Policy::BackgroundBusy));

    let affected = d.inhibited_apps_changed(vec!["vlc".to_string()]);
    assert_eq!(paths(&affected), vec![player.as_str().to_string()]);
    assert_eq!(d.unit_vote(&player), Some(Policy::Performance));

    // Nothing changes on a second, equal signal.
    let affected = d.inhibited_apps_changed(vec!["vlc".to_string()]);
    assert!(affected.is_empty());
}

#[test]
fn an_idle_tick_moves_a_napping_group_to_idle() {
    let mut d = daemon();
    let firefox = unit("app-firefox-42.scope");
    d.window_added("w1".into(), 42, true, false, "firefox".into(), Some(vec![firefox.duplicate()]));
    let idle = || TickReading {
        usage_below_idle: true,
        throttle_below_idle: true,
        usage_above_busy: false,
        throttle_above_busy: false,
        metrics: (0.01, 0.0),
    };
    let mut changed = None;
    for _ in 0..3 {
        let sample = sample_cpu(vec![(firefox.duplicate(), CpuStat { usage_usec: 1, throttled_usec: 0 })]);
        changed = d.cpu_usage_tick(42, sample, Some(idle()));
        if changed.is_some() {
            break;
        }
    }
    assert_eq!(changed, Some(Load::Idle));
    assert_eq!(d.unit_vote(&firefox), Some(Policy::NapIdle));
    assert!(d.group(42).unwrap().is_polled());
}

#[test]
fn sample_deltas_saturate_and_take_the_largest_throttle() {
    let a = unit("app-a-1.scope");
    let b = unit("app-b-2.scope");
    let c = unit("app-c-3.scope");
    let prev = CpuSample::now(1_000, vec![(a.duplicate(), 10), (b.duplicate(), 50)]);
    let now = CpuSample::now(1_600, vec![(a.duplicate(), 40), (b.duplicate(), 55), (c.duplicate(), 999)]);
    assert_eq!(now.usage_delta(&prev), 600);
    assert_eq!(prev.usage_delta(&now), 0);
    // Only units read in both samples count; `c` is new.
    assert_eq!(now.throttle_delta(&prev), 30);
    assert_eq!(prev.throttle_delta(&now), 0);
    if let Some(delta) = now.delta_since(&prev) {
        assert!(delta.elapsed_usec > 0);
        assert_eq!(delta.usage_usec, 600);
        assert_eq!(delta.throttle_usec, 30);
    }
}

#[test]
fn sample_cpu_sums_usage_and_keeps_throttling_per_unit() {
    let a = unit("app-a-1.scope");
    let b = unit("app-b-2.scope");
    let first = sample_cpu(vec![
        (a.duplicate(), CpuStat { usage_usec: 100, throttled_usec: 5 }),
        (b.duplicate(), CpuStat { usage_usec: 200, throttled_usec: 7 }),
    ]);
    let second = sample_cpu(vec![
        (a.duplicate(), CpuStat { usage_usec: 150, throttled_usec: 25 }),
        (b.duplicate(), CpuStat { usage_usec: 260, throttled_usec: 8 }),
    ]);
    assert_eq!(second.usage_delta(&first), 110);
    assert_eq!(second.throttle_delta(&first), 20);
}

#[test]
fn a_delta_needs_time_to_have_passed() {
    let a = unit("app-a-1.scope");
    let prev = CpuSample::now(100, vec![(a.duplicate(), 1)]);
    let now = CpuSample::now(400, vec![(a.duplicate(), 9)]);
    assert!(now.delta_after(&prev, None).is_none());
    assert!(now.delta_after(&prev, Some(0)).is_none());
    let delta = now.delta_after(&prev, Some(10_000)).unwrap();
    assert_eq!(delta.elapsed_usec, 10_000);
    assert_eq!(delta.usage_usec, 300);
    assert_eq!(delta.throttle_usec, 8);
}

#[test]
fn a_tick_without_a_baseline_only_sets_it() {
    let mut d = daemon();
    let firefox = unit("app-firefox-42.scope");
    d.window_added("w1".into(), 42, true, false, "firefox".into(), Some(vec![firefox.duplicate()]));
    assert!(d.group(42).unwrap().last_cpu_sample().is_none());
    let sample = sample_cpu(vec![(firefox.duplicate(), CpuStat { usage_usec: 5, throttled_usec: 0 })]);
    assert_eq!(d.cpu_usage_tick(42, sample, None), None);
    assert!(d.group(42).unwrap().last_cpu_sample().is_some());
}

#[test]
fn a_unit_keeps_its_applied_policy_when_another_group_joins() {
    let mut d = daemon();
    let shared = unit("app-konsole-1.scope");
    let other = unit("app-kate-2.scope");
    d.window_added("w1".into(), 42, false, true, "a".into(), Some(vec![shared.duplicate()]));
    d.record_applied(&shared, Some(Policy::Performance));
    d.window_added("w2".into(), 43, false, true, "b".into(), Some(vec![shared.duplicate(), other.duplicate()]));
    // The shared unit already has its policy; the new one has none yet.
    assert!(d.plan_reconcile(&shared).is_none());
    let t = d.plan_reconcile(&other).unwrap();
    assert_eq!(t.from, None);
    assert_eq!(t.to, Policy::Performance);
}

#[test]
fn repeated_wake_signals_count_once() {
    let mut d = daemon();
    let player = unit("app-vlc-5.scope");
    d.window_added("w1".into(), 42, true, false, "vlc".into(), Some(vec![player.duplicate()]));
    let affected = d.media_units_changed(vec![player.duplicate(), player.duplicate()]);
    assert_eq!(paths(&affected), vec![player.as_str().to_string()]);
    assert_eq!(d.unit_vote(&player), Some(Policy::BackgroundBusy));
    let affected = d.inhibited_apps_changed(vec!["vlc".to_string(), "vlc".to_string()]);
    assert_eq!(paths(&affected), vec![player.as_str().to_string()]);
    assert_eq!(d.unit_vote(&player), Some(Policy::Performance));
    let affected = d.media_units_changed(vec![]);
    assert!(affected.is_empty());
    assert_eq!(d.unit_vote(&player), Some(Policy::Performance));
}

#[test]
fn a_group_lists_each_unit_once() {
    let mut d = daemon();
    let a = unit("app-a-1.scope");
    let (affected, _) =
        d.window_added("w1".into(), 42, false, true, "x".into(), Some(vec![a.duplicate(), a.duplicate()]));
    assert_eq!(paths(&affected), vec![a.as_str().to_string()]);
    assert_eq!(d.group(42).unwrap().unit_paths().len(), 1);
}
