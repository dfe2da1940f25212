use app_nap::config::error::{validate, ConfigValidationError, PollingFacts, PollingField};
use app_nap::config::models::cpu_load_polling::{ConfirmTicks, DEFAULT_INTERVAL_MS};
use app_nap::config::models::policies::PoliciesConfig;
use app_nap::config::models::action::ActionConfig;

/// The polling settings as the configuration file holds them.
#[derive(Debug, Clone, Copy)]
struct Polling {
    interval_ms: u64,
    idle_usage_thres: f64,
    idle_throttle_thres: f64,
    idle_confirm_ticks: u64,
    busy_usage_thres: f64,
    busy_throttle_thres: f64,
    busy_confirm_ticks: u64,
}

impl Default for Polling {
    fn default() -> Self {
        let ticks = ConfirmTicks::default();
        Polling {
            interval_ms: DEFAULT_INTERVAL_MS,
            idle_usage_thres: 0.10,
            idle_throttle_thres: 0.01,
            idle_confirm_ticks: ticks.idle,
            busy_usage_thres: 0.20,
            busy_throttle_thres: 0.05,
            busy_confirm_ticks: ticks.busy,
        }
    }
}

fn valid_threshold(value: f64) -> bool {
    !(value < 0.0 || !value.is_finite())
}

/// What the checks read of the settings, as the daemon computes it.
fn facts(p: &Polling) -> PollingFacts {
    PollingFacts {
        interval_ms: p.interval_ms,
        idle_confirm_ticks: p.idle_confirm_ticks,
        busy_confirm_ticks: p.busy_confirm_ticks,
        idle_usage_bits: p.idle_usage_thres.to_bits(),
        busy_usage_bits: p.busy_usage_thres.to_bits(),
        idle_throttle_bits: p.idle_throttle_thres.to_bits(),
        busy_throttle_bits: p.busy_throttle_thres.to_bits(),
        idle_usage_valid: valid_threshold(p.idle_usage_thres),
        busy_usage_valid: valid_threshold(p.busy_usage_thres),
        idle_throttle_valid: valid_threshold(p.idle_throttle_thres),
        busy_throttle_valid: valid_threshold(p.busy_throttle_thres),
        usage_ordered: !(p.idle_usage_thres >= p.busy_usage_thres),
        throttle_ordered: !(p.idle_throttle_thres >= p.busy_throttle_thres),
    }
}

fn assert_must_be_positive(config: &Polling, expected_field: &str) {
    match validate(&facts(config)) {
        Err(ConfigValidationError::MustBePositive { field, found }) => {
            assert_eq!(field.as_str(), expected_field);
            assert_eq!(found, 0);
        }
        result => panic!("expected MustBePositive for {expected_field}, got {result:?}"),
    }
}

fn assert_invalid_threshold(config: &Polling, expected_field: &str) {
    match validate(&facts(config)) {
        Err(ConfigValidationError::InvalidThreshold { field, .. }) => {
            assert_eq!(field.as_str(), expected_field);
        }
        result => panic!("expected InvalidThreshold for {expected_field}, got {result:?}"),
    }
}

fn assert_invalid_order(config: &Polling, expected_lower: &str, expected_upper: &str) {
    match validate(&facts(config)) {
        Err(ConfigValidationError::InvalidThresholdOrder { lower_field, upper_field, .. }) => {
            assert_eq!(lower_field.as_str(), expected_lower);
            assert_eq!(upper_field.as_str(), expected_upper);
        }
        result => panic!(
            "expected InvalidThresholdOrder for {expected_lower} and {expected_upper}, got {result:?}"
        ),
    }
}

#[test]
fn accepts_default_config() {
    assert!(validate(&facts(&Polling::default())).is_ok());
}

#[test]
fn rejects_zero_interval_ms() {
    let mut config = Polling::default();
    config.interval_ms = 0;

    assert_must_be_positive(&config, "cpu_load_polling.interval_ms");
}

#[test]
fn rejects_zero_idle_confirm_ticks() {
    let mut config = Polling::default();
    config.idle_confirm_ticks = 0;

    assert_must_be_positive(&config, "cpu_load_polling.idle.confirm_ticks");
}

#[test]
fn rejects_zero_busy_confirm_ticks() {
    let mut config = Polling::default();
    config.busy_confirm_ticks = 0;

    assert_must_be_positive(&config, "cpu_load_polling.busy.confirm_ticks");
}

type ThresholdSetter = fn(&mut Polling, f64);

#[test]
fn rejects_invalid_thresholds() {
    let cases: [(&str, ThresholdSetter); 4] = [
        ("cpu_load_polling.idle.usage_thres", |config, value| {
            config.idle_usage_thres = value;
        }),
        ("cpu_load_polling.busy.usage_thres", |config, value| {
            config.busy_usage_thres = value;
        }),
        ("cpu_load_polling.idle.throttle_thres", |config, value| {
            config.idle_throttle_thres = value;
        }),
        ("cpu_load_polling.busy.throttle_thres", |config, value| {
            config.busy_throttle_thres = value;
        }),
    ];

    for (field, set) in cases {
        for value in [-0.1, f64::NAN, f64::INFINITY, f64::NEG_INFINITY] {
            let mut config = Polling::default();
            set(&mut config, value);
            assert_invalid_threshold(&config, field);
        }
    }
}

#[test]
fn rejects_equal_and_reversed_usage_thresholds() {
    for (idle, busy) in [(0.2, 0.2), (0.3, 0.2)] {
        let mut config = Polling::default();
        config.idle_usage_thres = idle;
        config.busy_usage_thres = busy;

        assert_invalid_order(
            &config,
            "cpu_load_polling.idle.usage_thres",
            "cpu_load_polling.busy.usage_thres",
        );
    }
}

#[test]
fn rejects_equal_and_reversed_throttle_thresholds() {
    for (idle, busy) in [(0.05, 0.05), (0.06, 0.05)] {
        let mut config = Polling::default();
        config.idle_throttle_thres = idle;
        config.busy_throttle_thres = busy;

        assert_invalid_order(
            &config,
            "cpu_load_polling.idle.throttle_thres",
            "cpu_load_polling.busy.throttle_thres",
        );
    }
}

#[test]
fn accepts_multicore_usage_thresholds() {
    let mut config = Polling::default();
    config.idle_usage_thres = 2.0;
    config.busy_usage_thres = 4.0;

    assert!(validate(&facts(&config)).is_ok());
}

#[test]
fn the_first_failing_check_is_reported() {
    let mut config = Polling::default();
    config.interval_ms = 0;
    config.busy_usage_thres = f64::NAN;
    assert_eq!(
        validate(&facts(&config)),
        Err(ConfigValidationError::MustBePositive { field: PollingField::IntervalMs, found: 0 })
    );
}

#[test]
fn default_policies_match_the_example_configuration() {
    let policies = PoliciesConfig::default();
    assert_eq!(
        policies.performance.actions(),
        &vec![ActionConfig::SystemdCpuWeight { weight: 100 }]
    );
    assert_eq!(
        policies.background_busy.actions(),
        &vec![ActionConfig::SystemdCpuWeight { weight: 1 }]
    );
    assert_eq!(
        policies.background_idle.actions(),
        &vec![ActionConfig::SystemdCpuWeight { weight: 1 }, ActionConfig::Ecore]
    );
    assert_eq!(
        policies.nap_idle.actions(),
        &vec![ActionConfig::SystemdCpuQuota { percent: 10 }, ActionConfig::Ecore]
    );
    assert_eq!(
        policies.nap_busy.actions(),
        &vec![ActionConfig::SystemdCpuQuota { percent: 50 }, ActionConfig::Ecore]
    );
}

#[test]
fn threshold_errors_carry_the_values_found() {
    let mut config = Polling::default();
    config.busy_throttle_thres = -0.5;
    assert_eq!(
        validate(&facts(&config)),
        Err(ConfigValidationError::InvalidThreshold {
            field: PollingField::BusyThrottleThres,
            found: (-0.5f64).to_bits(),
        })
    );

    let mut config = Polling::default();
    config.idle_usage_thres = 0.3;
    config.busy_usage_thres = 0.2;
    assert_eq!(
        validate(&facts(&config)),
        Err(ConfigValidationError::InvalidThresholdOrder {
            lower_field: PollingField::IdleUsageThres,
            lower: 0.3f64.to_bits(),
            upper_field: PollingField::BusyUsageThres,
            upper: 0.2f64.to_bits(),
        })
    );
}
