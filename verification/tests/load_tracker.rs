use app_nap::config::model::TtlConfig;
use app_nap::daemon::app_state::Load;
use app_nap::daemon::load_tracker::{LoadReading, LoadTracker};

/// A CPU sample: when it was taken and the counters it read.
#[derive(Debug, Clone, Copy, PartialEq)]
struct Sample {
    at_usec: u64,
    usage_usec: u64,
    throttled_usec: u64,
}

type Tracker = LoadTracker<Sample, (f64, f64)>;

fn sample(at_usec: u64, usage_delta: u64, throttle_delta: u64) -> Sample {
    Sample { at_usec, usage_usec: usage_delta, throttled_usec: throttle_delta }
}

/// Usage and throttle in core-equivalents between two samples, as the
/// daemon measures them.
fn delta(now: &Sample, prev: &Sample) -> Option<(f64, f64)> {
    let dt = now.at_usec.checked_sub(prev.at_usec)? as f64;
    if dt <= 0.0 {
        return None;
    }
    let usage = now.usage_usec.saturating_sub(prev.usage_usec) as f64 / dt;
    let throttle = now.throttled_usec.saturating_sub(prev.throttled_usec) as f64 / dt;
    Some((usage, throttle))
}

/// Feeds a sample the way the daemon does: the reading against the
/// baseline, with the default thresholds (idle below 0.10 usage and 0.01
/// throttle, busy above 0.20 usage or 0.05 throttle).
fn observe(tracker: &mut Tracker, s: Sample) -> Option<Load> {
    let reading = match tracker.last_sample.as_ref() {
        Some(prev) => delta(&s, prev).map(|(usage, throttle)| LoadReading {
            below_idle: usage < 0.10 && throttle < 0.01,
            above_busy: usage > 0.20 || throttle > 0.05,
            metrics: (usage, throttle),
        }),
        None => None,
    };
    tracker.observe(s, reading, &TtlConfig::default())
}

const SEC: u64 = 10_000_000;
// Core-equivalents at a 10s tick: 0.01 idle-ish, 0.10 dead band, 0.5 busy.
const LOW: u64 = 100_000;
const MID: u64 = 1_000_000;
const HIGH: u64 = 5_000_000;

/// A tracker already in `Idle`, with its last sample at `t0 + 3*SEC`;
/// callers continue the timeline from `t0 + 4*SEC`.
fn idle_tracker(t0: u64) -> Tracker {
    let mut tracker = Tracker::new();
    observe(&mut tracker, sample(t0, 0, 0));
    observe(&mut tracker, sample(t0 + SEC, LOW, 0));
    observe(&mut tracker, sample(t0 + 2 * SEC, 2 * LOW, 0));
    observe(&mut tracker, sample(t0 + 3 * SEC, 3 * LOW, 0));
    assert_eq!(tracker.load, Load::Idle);
    tracker
}

#[test]
fn first_sample_is_baseline_only() {
    let mut tracker = Tracker::new();
    let t0 = 1_000;
    assert_eq!(observe(&mut tracker, sample(t0, 0, 0)), None);
    assert_eq!(tracker.load, Load::Busy);
}

#[test]
fn idle_applies_after_ttl() {
    let mut tracker = Tracker::new();
    let t0 = 1_000;
    observe(&mut tracker, sample(t0, 0, 0));
    assert_eq!(observe(&mut tracker, sample(t0 + SEC, LOW, 0)), None);
    assert_eq!(tracker.queued_load, Load::Idle);
    assert_eq!(tracker.ttl, 2);
    assert_eq!(observe(&mut tracker, sample(t0 + 2 * SEC, 2 * LOW, 0)), None);
    assert_eq!(tracker.load, Load::Busy);
    assert_eq!(
        observe(&mut tracker, sample(t0 + 3 * SEC, 3 * LOW, 0)),
        Some(Load::Idle)
    );
}

#[test]
fn busy_applies_after_shorter_ttl() {
    let t0 = 1_000;
    let mut tracker = idle_tracker(t0);
    assert_eq!(
        observe(&mut tracker, sample(t0 + 4 * SEC, 3 * LOW + HIGH, 0)),
        None
    );
    assert_eq!(tracker.queued_load, Load::Busy);
    assert_eq!(tracker.ttl, 1);
    assert_eq!(
        observe(&mut tracker, sample(t0 + 5 * SEC, 3 * LOW + 2 * HIGH, 0)),
        Some(Load::Busy)
    );
}

#[test]
fn dead_band_holds_current_load() {
    let mut tracker = Tracker::new();
    let t0 = 1_000;
    observe(&mut tracker, sample(t0, 0, 0));
    assert_eq!(observe(&mut tracker, sample(t0 + SEC, MID, 0)), None);
    assert_eq!(tracker.queued_load, Load::Busy);
    assert_eq!(tracker.load, Load::Busy);
}

#[test]
fn spike_cancels_pending_idle() {
    let mut tracker = Tracker::new();
    let t0 = 1_000;
    observe(&mut tracker, sample(t0, 0, 0));
    observe(&mut tracker, sample(t0 + SEC, LOW, 0));
    assert_eq!(tracker.queued_load, Load::Idle);
    assert_eq!(observe(&mut tracker, sample(t0 + 2 * SEC, LOW + HIGH, 0)), None);
    assert_eq!(tracker.queued_load, Load::Busy);
    assert_eq!(tracker.load, Load::Busy);
}

#[test]
fn throttle_blocks_idle() {
    let mut tracker = Tracker::new();
    let t0 = 1_000;
    observe(&mut tracker, sample(t0, 0, 0));
    // Usage is low but throttling is above the idle ceiling (0.02 > 0.01).
    assert_eq!(observe(&mut tracker, sample(t0 + SEC, LOW, 200_000)), None);
    assert_eq!(tracker.queued_load, Load::Busy);
}

#[test]
fn throttle_escape_queues_busy() {
    let t0 = 1_000;
    let mut tracker = idle_tracker(t0);
    // Usage reads low (capped by quota) but throttling crosses 0.05.
    assert_eq!(
        observe(&mut tracker, sample(t0 + 4 * SEC, 4 * LOW, 600_000)),
        None
    );
    assert_eq!(tracker.queued_load, Load::Busy);
    assert_eq!(
        observe(&mut tracker, sample(t0 + 5 * SEC, 5 * LOW, 1_200_000)),
        Some(Load::Busy)
    );
}

#[test]
fn reset_returns_to_cold_start() {
    let t0 = 1_000;
    let mut tracker = idle_tracker(t0);
    tracker.reset();
    assert_eq!(tracker.load, Load::Busy);
    assert_eq!(tracker.queued_load, Load::Busy);
    assert_eq!(observe(&mut tracker, sample(t0 + 4 * SEC, 0, 0)), None);
}

#[test]
fn clearing_the_baseline_keeps_the_load() {
    let t0 = 1_000;
    let mut tracker = idle_tracker(t0);
    tracker.clear_baseline();
    assert!(tracker.last_sample.is_none());
    assert_eq!(tracker.load, Load::Idle);
    // The next sample is a baseline again.
    assert_eq!(observe(&mut tracker, sample(t0 + 4 * SEC, 10 * HIGH, 0)), None);
    assert_eq!(tracker.queued_load, Load::Idle);
}

#[test]
fn readings_are_kept_for_reporting() {
    let mut tracker = Tracker::new();
    observe(&mut tracker, sample(0, 0, 0));
    observe(&mut tracker, sample(SEC, HIGH, 0));
    assert_eq!(tracker.metrics, Some((0.5, 0.0)));
}
