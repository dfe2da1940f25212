//! Busy/idle hysteresis of the tier layout.
use crate::config::model::TtlConfig;
use crate::daemon::app_state::Load;
use vstd::prelude::*;

verus! {

/// What one CPU sample says, against the previous one, of an app's load.
/// The daemon computes it from the floating-point usage and throttle and the
/// configured thresholds.
#[derive(Debug, Clone, Copy)]
pub struct LoadReading<M> {
    /// `usage < idle_threshold && throttle < throttle_idle_max`.
    pub below_idle: bool,
    /// `usage > busy_threshold || throttle > throttle_busy`.
    pub above_busy: bool,
    /// The usage and throttle the sample measured, kept for reporting.
    pub metrics: M,
}

/// Busy/idle hysteresis for one cpu-load-polled app: dual thresholds (dead band) plus
/// a throttle escape hatch, and a TTL so a candidate must persist before it is
/// applied. Cold start is `Busy`; the first sample only sets the baseline.
///
/// `S` is the daemon's CPU sample; `M` what a reading measured.
#[derive(Debug)]
pub struct LoadTracker<S, M> {
    pub load: Load,
    pub queued_load: Load,
    pub ttl: u32,
    /// The last measurement, `None` before the first reading.
    pub metrics: Option<M>,
    /// The baseline that the next sample is measured against.
    pub last_sample: Option<S>,
}

/// The load that a reading proposes from the current load: idle only from
/// busy below the idle thresholds, busy only from idle above a busy
/// threshold; in the dead band the load stays.
pub open spec fn candidate_load(load: Load, below_idle: bool, above_busy: bool) -> Load {
    match load {
        Load::Busy => if below_idle {
            Load::Idle
        } else {
            Load::Busy
        },
        Load::Idle => if above_busy {
            Load::Busy
        } else {
            Load::Idle
        },
    }
}

/// The hysteresis step on `(load, queued_load, ttl)` for one reading: a new
/// candidate is queued with its TTL; a queued change counts its TTL down and
/// is applied when it reaches zero. Gives the new state and the applied
/// load, if any.
pub open spec fn hysteresis_step(
    load: Load,
    queued: Load,
    ttl: u32,
    below_idle: bool,
    above_busy: bool,
    cfg: TtlConfig,
) -> (Load, Load, u32, Option<Load>) {
    let candidate = candidate_load(load, below_idle, above_busy);
    if candidate != queued {
        (
            load,
            candidate,
            match candidate {
                Load::Idle => cfg.ttl_idle,
                Load::Busy => cfg.ttl_busy,
            },
            None,
        )
    } else if queued == load {
        (load, queued, ttl, None)
    } else {
        let t = if ttl > 0 {
            (ttl - 1) as u32
        } else {
            0u32
        };
        if t > 0 {
            (load, queued, t, None)
        } else {
            (queued, queued, t, Some(queued))
        }
    }
}

/// The TTL a candidate is queued with.
pub open spec fn ttl_for(c: Load, cfg: TtlConfig) -> u32 {
    match c {
        Load::Idle => cfg.ttl_idle,
        Load::Busy => cfg.ttl_busy,
    }
}

/// The `(load, queued_load, ttl)` state after `n` readings that are all
/// below the idle thresholds (`below_idle`) or all above a busy one
/// (`above_busy`) as given.
pub open spec fn hysteresis_run(
    load: Load,
    queued: Load,
    ttl: u32,
    below_idle: bool,
    above_busy: bool,
    n: nat,
    cfg: TtlConfig,
) -> (Load, Load, u32)
    decreases n,
{
    if n == 0 {
        (load, queued, ttl)
    } else {
        let (l0, q0, t0) = hysteresis_run(load, queued, ttl, below_idle, above_busy, (n - 1) as nat, cfg);
        let (l, q, t, _) = hysteresis_step(l0, q0, t0, below_idle, above_busy, cfg);
        (l, q, t)
    }
}

/// A settled load moves to the candidate that readings propose only once
/// they have proposed it on one reading more than its TTL (at least two):
/// the first queues it with its TTL, the next ones count the TTL down, and
/// the load changes when the count reaches zero.
pub proof fn lemma_ttl(load: Load, ttl: u32, below_idle: bool, above_busy: bool, n: nat, cfg: TtlConfig)
    requires
        candidate_load(load, below_idle, above_busy) != load,
        1 <= n,
        n <= 1 + if ttl_for(candidate_load(load, below_idle, above_busy), cfg) > 0 {
            ttl_for(candidate_load(load, below_idle, above_busy), cfg) as int
        } else {
            1
        },
    ensures
        ({
            let c = candidate_load(load, below_idle, above_busy);
            let tc = ttl_for(c, cfg);
            let last = 1 + if tc > 0 {
                tc as int
            } else {
                1
            };
            &&& n < last ==> hysteresis_run(load, load, ttl, below_idle, above_busy, n, cfg) == (
                load,
                c,
                (tc - (n - 1)) as u32,
            )
            &&& n == last ==> hysteresis_run(load, load, ttl, below_idle, above_busy, n, cfg).0 == c
        }),
    decreases n,
{
    let c = candidate_load(load, below_idle, above_busy);
    let tc = ttl_for(c, cfg);
    if n == 1 {
        assert(hysteresis_run(load, load, ttl, below_idle, above_busy, 0, cfg) == (load, load, ttl));
        assert(hysteresis_run(load, load, ttl, below_idle, above_busy, 1, cfg) == (load, c, tc));
    } else {
        lemma_ttl(load, ttl, below_idle, above_busy, (n - 1) as nat, cfg);
        let prev = hysteresis_run(load, load, ttl, below_idle, above_busy, (n - 1) as nat, cfg);
        assert(prev == (load, c, (tc - (n - 2)) as u32));
        assert(candidate_load(prev.0, below_idle, above_busy) == c);
    }
}

impl<S, M> LoadTracker<S, M> {
    /// Cold start: busy, nothing queued, no baseline.
    pub open spec fn is_cold(&self) -> bool {
        &&& self.load == Load::Busy
        &&& self.queued_load == Load::Busy
        &&& self.ttl == 0
        &&& self.metrics is None
        &&& self.last_sample is None
    }

    pub fn new() -> (r: Self)
        ensures
            r.is_cold(),
    {
        Self { load: Load::Busy, queued_load: Load::Busy, ttl: 0, metrics: None, last_sample: None }
    }

    /// Back to cold start: busy until fresh samples exist.
    pub fn reset(&mut self)
        ensures
            final(self).is_cold(),
    {
        *self = Self::new();
    }

    /// Keep load state but drop the sample baseline (e.g. cgroup set changed).
    pub fn clear_baseline(&mut self)
        ensures
            final(self).last_sample is None,
            final(self).load == old(self).load,
            final(self).queued_load == old(self).queued_load,
            final(self).ttl == old(self).ttl,
            final(self).metrics == old(self).metrics,
    {
        self.last_sample = None;
    }

    /// Feed a sample; returns the new load when the hysteresis applies a change.
    ///
    /// `reading` is what the sample says against the baseline, `None` when
    /// the two give no measurement. Without a baseline the sample only
    /// becomes the baseline.
    pub fn observe(&mut self, sample: S, reading: Option<LoadReading<M>>, config: &TtlConfig) -> (r:
        Option<Load>)
        ensures
            final(self).last_sample == Some(sample),
            match (old(self).last_sample, reading) {
                (Some(_), Some(rd)) => {
                    let (l, q, t, out) = hysteresis_step(
                        old(self).load,
                        old(self).queued_load,
                        old(self).ttl,
                        rd.below_idle,
                        rd.above_busy,
                        *config,
                    );
                    &&& final(self).load == l
                    &&& final(self).queued_load == q
                    &&& final(self).ttl == t
                    &&& r == out
                    &&& final(self).metrics == Some(rd.metrics)
                },
                _ => {
                    &&& r is None
                    &&& final(self).load == old(self).load
                    &&& final(self).queued_load == old(self).queued_load
                    &&& final(self).ttl == old(self).ttl
                    &&& final(self).metrics == old(self).metrics
                },
            },
    {
        if self.last_sample.is_none() {
            self.last_sample = Some(sample);
            return None;
        }
        let rd = match reading {
            Some(rd) => rd,
            None => {
                self.last_sample = Some(sample);
                return None;
            },
        };
        self.metrics = Some(rd.metrics);
        self.last_sample = Some(sample);

        let candidate = match self.load {
            Load::Busy => if rd.below_idle {
                Load::Idle
            } else {
                Load::Busy
            },
            Load::Idle => if rd.above_busy {
                Load::Busy
            } else {
                Load::Idle
            },
        };

        if candidate != self.queued_load {
            self.queued_load = candidate;
            self.ttl = match candidate {
                Load::Idle => config.ttl_idle,
                Load::Busy => config.ttl_busy,
            };
            return None;
        }

        if self.queued_load == self.load {
            return None;
        }

        self.ttl = if self.ttl > 0 {
            self.ttl - 1
        } else {
            0
        };
        if self.ttl > 0 {
            return None;
        }

        self.load = self.queued_load;
        Some(self.load)
    }
}

} // verus!
