use app_nap::daemon::app_state::{AppState, Tier, WindowState};
use app_nap::daemon::policy::PolicyKey;
use app_nap::daemon::snapshot::AppSnapshot;

fn app_state() -> AppState<(), (f64, f64)> {
    let mut app_state = AppState::new("firefox".into(), vec!["/app.slice/app-firefox".into()]);
    app_state.windows.insert(
        "window-b".into(),
        WindowState { minimized: true, active: false },
    );
    app_state.windows.insert(
        "window-a".into(),
        WindowState { minimized: false, active: true },
    );
    app_state
}

#[test]
fn projects_state_with_sorted_windows() {
    let mut state = app_state();
    state.tier = Tier::Background;
    state.applied = Some(PolicyKey::BackgroundIdle);
    state.load_tracker.metrics = Some((0.25, 0.5));

    let snapshot = AppSnapshot::new(42, &state);

    assert_eq!(snapshot.pid, 42);
    assert_eq!(snapshot.name, "firefox");
    assert_eq!(snapshot.tier, "background");
    assert_eq!(snapshot.load, "busy");
    assert_eq!(snapshot.policy, "background-idle");
    assert_eq!(snapshot.metrics, Some((0.25, 0.5)));
    assert_eq!(snapshot.cgroups, vec!["/app.slice/app-firefox".to_string()]);
    let windows: Vec<&str> = snapshot
        .windows
        .iter()
        .map(|window| window.window_id.as_str())
        .collect();
    assert_eq!(windows, vec!["window-a", "window-b"]);
    assert!(snapshot.windows[0].active);
    assert!(snapshot.windows[1].minimized);
}

#[test]
fn unapplied_app_reports_empty_policy() {
    let snapshot = AppSnapshot::new(42, &app_state());

    assert_eq!(snapshot.tier, "unknown");
    assert_eq!(snapshot.policy, "");
}
