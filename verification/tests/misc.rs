use app_nap::action::ecore::ECoreAction;
use app_nap::action::systemd::UnitProperty;
use app_nap::actions::systemd_cpu_quota::{cpu_quota_from_percent, CPU_QUOTA_UNSET};
use app_nap::actions::{Action, UnitOp};
use app_nap::conf_service::toml_conf_service::config_path;
use app_nap::conf_service::{Conf, ConfService, DefaultConfService, NapBackendType, TomlConfService};
use app_nap::config::models::action::ActionConfig;
use app_nap::config::models::policies::PoliciesConfig;
use app_nap::daemon::models::policy::{max_vote, Policy};
use app_nap::daemon::policy_router::PolicyRouter;
use app_nap::daemon::rollback::{action_index, RollbackRun, RunOrder, RunStep};
use app_nap::dbus::client::mpris::{is_playing_status, mpris_players, pid_from_bus};
use app_nap::dbus::client::powerdevil::ActiveInhibition;
use app_nap::dbus::server::{validate_input, InvalidInput};

#[test]
fn nap_backend_names_round_trip() {
    for t in [NapBackendType::Signal, NapBackendType::SystemdScope] {
        assert_eq!(NapBackendType::parse(t.as_str()), Ok(t));
    }
    assert_eq!(NapBackendType::SystemdScope.as_str(), "systemd-scope");
    assert_eq!(
        NapBackendType::parse("cgroup"),
        Err("unknown nap backend type: cgroup".to_string())
    );
    assert_eq!("signal".parse::<NapBackendType>(), Ok(NapBackendType::Signal));
}

#[test]
fn toml_conf_falls_back_to_the_default_until_loaded() {
    let mut service = TomlConfService::new("/home/me");
    assert_eq!(service.config_path(), "/home/me/.config/app-nap/app-nap.toml");
    let default = DefaultConfService::new();
    assert_eq!(
        service.get_conf().unwrap().nap_backend_type,
        default.get_conf().unwrap().nap_backend_type
    );
    service.set_loaded(Some(Conf { nap_backend_type: NapBackendType::Signal }));
    assert_eq!(service.get_conf().unwrap().nap_backend_type, NapBackendType::Signal);
    service.set_loaded(None);
    assert_eq!(service.get_conf().unwrap().nap_backend_type, NapBackendType::SystemdScope);
}

#[test]
fn config_path_joins_like_a_path() {
    assert_eq!(config_path("/home/me/"), "/home/me/.config/app-nap/app-nap.toml");
    assert_eq!(config_path("."), "./.config/app-nap/app-nap.toml");
    assert_eq!(config_path(""), ".config/app-nap/app-nap.toml");
}

#[test]
fn inhibition_flags() {
    let inhibition = ActiveInhibition::from((
        "idle".to_string(),
        "org.mozilla.firefox".to_string(),
        "video".to_string(),
        "block".to_string(),
        3,
    ));
    assert_eq!(inhibition.app_name, "org.mozilla.firefox");
    assert!(inhibition.is_active());
    assert!(inhibition.is_allowed());
    let only_allowed = ActiveInhibition { flags: 2, ..inhibition.clone() };
    assert!(!only_allowed.is_active());
    assert!(only_allowed.is_allowed());
    let none = ActiveInhibition { flags: 0, ..inhibition };
    assert!(!none.is_active() && !none.is_allowed());
}

#[test]
fn mpris_players_are_filtered_by_prefix() {
    let names = vec![
        "org.mpris.MediaPlayer2.vlc".to_string(),
        "org.kde.KWin".to_string(),
        "org.mpris.MediaPlayer2.firefox.instance_1".to_string(),
    ];
    assert_eq!(
        mpris_players(names),
        vec![
            "org.mpris.MediaPlayer2.vlc".to_string(),
            "org.mpris.MediaPlayer2.firefox.instance_1".to_string()
        ]
    );
    assert!(is_playing_status("Playing"));
    assert!(!is_playing_status("Paused"));
    assert!(!is_playing_status("Stopped"));
    assert_eq!(pid_from_bus(4242), 4242);
    assert_eq!(pid_from_bus(u32::MAX), -1);
}

#[test]
fn window_requests_are_validated() {
    assert_eq!(validate_input("w", 1), Ok(()));
    assert_eq!(validate_input("", 1), Err(InvalidInput::EmptyWindowId));
    assert_eq!(validate_input("w", 0), Err(InvalidInput::NonPositivePid));
    assert_eq!(validate_input("", -3), Err(InvalidInput::EmptyWindowId));
    assert_eq!(InvalidInput::NonPositivePid.message(), "pid must be > 0");
}

#[test]
fn unit_actions_apply_and_revert() {
    assert_eq!(cpu_quota_from_percent(10), 100_000);
    let quota = Action::from_config(&ActionConfig::SystemdCpuQuota { percent: 50 }, None);
    match quota.apply() {
        UnitOp::SetProperty(UnitProperty::CpuQuotaPerSecUSec(v)) => assert_eq!(v, 500_000),
        _ => panic!("a quota sets CPUQuotaPerSecUSec"),
    }
    match quota.revert() {
        UnitOp::SetProperty(p) => {
            assert_eq!(p, UnitProperty::CpuQuotaPerSecUSec(CPU_QUOTA_UNSET));
            assert_eq!(p.name(), "CPUQuotaPerSecUSec");
        }
        _ => panic!("a quota lifts CPUQuotaPerSecUSec"),
    }
    let weight = Action::from_config(&ActionConfig::SystemdCpuWeight { weight: 1 }, None);
    match weight.revert() {
        UnitOp::SetProperty(p) => assert_eq!(p, UnitProperty::CpuWeight(100)),
        _ => panic!("a weight restores CPUWeight"),
    }
    let freeze = Action::from_config(&ActionConfig::SystemdFreeze, None);
    assert!(matches!(freeze.apply(), UnitOp::Freeze));
    assert!(matches!(freeze.revert(), UnitOp::Thaw));
}

#[test]
fn the_router_maps_each_policy_to_its_actions() {
    let ecore = ECoreAction::new("8-11", "0-11").unwrap();
    let router = PolicyRouter::from_config(&PoliciesConfig::default(), Some(&ecore));
    assert_eq!(router.map_policy_to_actions(Policy::Performance).len(), 1);
    let nap = router.map_policy_to_actions(Policy::NapIdle);
    assert_eq!(nap.len(), 2);
    assert!(matches!(nap[0], Action::SystemdCpuQuota { percent: 10 }));
    assert!(matches!(nap[1], Action::Ecore { .. }));
}

#[test]
fn the_most_awake_vote_wins() {
    assert_eq!(max_vote(&[]), None);
    assert_eq!(
        max_vote(&[Policy::NapIdle, Policy::BackgroundBusy, Policy::NapBusy]),
        Some(Policy::BackgroundBusy)
    );
    assert!(Policy::Performance > Policy::BackgroundBusy);
}

/// Runs a rollback over `outcomes` (the result of each step in turn) and
/// gives the steps taken.
fn run(len: usize, outcomes: &[bool]) -> Vec<RunStep> {
    let mut run = RollbackRun::start(len);
    let mut steps = Vec::new();
    let mut k = 0;
    loop {
        let step = run.next_step();
        steps.push(step);
        if let RunStep::Finish(_) = step {
            return steps;
        }
        run.record(outcomes[k]);
        k += 1;
    }
}

#[test]
fn a_failed_action_rolls_back_the_applied_ones_in_reverse() {
    assert_eq!(
        run(3, &[true, true, false, true, true]),
        vec![
            RunStep::Do(0),
            RunStep::Do(1),
            RunStep::Do(2),
            RunStep::Undo(1),
            RunStep::Undo(0),
            RunStep::Finish(Some(2)),
        ]
    );
    assert_eq!(
        run(2, &[true, true]),
        vec![RunStep::Do(0), RunStep::Do(1), RunStep::Finish(None)]
    );
    // A failed undo is only reported; the rollback goes on.
    assert_eq!(
        run(2, &[true, false, false]),
        vec![RunStep::Do(0), RunStep::Do(1), RunStep::Undo(0), RunStep::Finish(Some(1))]
    );
    assert_eq!(action_index(RunOrder::Reversed, 3, 0), 2);
    assert_eq!(action_index(RunOrder::InOrder, 3, 0), 0);
}
