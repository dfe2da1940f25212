//! Busy/idle hysteresis of the policy layout.
use crate::config::models::cpu_load_polling::ConfirmTicks;
use vstd::prelude::*;

verus! {

#[derive(Clone, Copy, PartialEq, Eq, Debug, Structural)]
pub enum Load {
    Busy,
    Idle,
}

/// What one CPU sample says, against the previous one, of an app's load:
/// the comparisons of its floating-point usage and throttle with the
/// configured thresholds, which the daemon makes.
#[derive(Debug, Clone, Copy)]
pub struct TickReading<M> {
    /// `usage < idle.usage_thres`
    pub usage_below_idle: bool,
    /// `throttle < idle.throttle_thres`
    pub throttle_below_idle: bool,
    /// `usage > busy.usage_thres`
    pub usage_above_busy: bool,
    /// `throttle > busy.throttle_thres`
    pub throttle_above_busy: bool,
    /// The usage and throttle the sample measured, kept for reporting.
    pub metrics: M,
}

/// Less than the idle usage AND throttle is idle; more than the busy usage
/// OR throttle is busy; in between there is no candidate.
pub open spec fn next_load_of<M>(r: TickReading<M>) -> Option<Load> {
    if r.usage_below_idle && r.throttle_below_idle {
        Some(Load::Idle)
    } else if r.usage_above_busy || r.throttle_above_busy {
        Some(Load::Busy)
    } else {
        None
    }
}

/// A reading under both idle thresholds is an idle candidate; otherwise a
/// reading over either busy threshold is a busy candidate (usage alone is
/// enough, as is throttling alone); any other reading gives no candidate.
pub proof fn lemma_candidate_rules<M>(r: TickReading<M>)
    ensures
        (next_load_of(r) == Some(Load::Idle)) <==> (r.usage_below_idle && r.throttle_below_idle),
        (next_load_of(r) == Some(Load::Busy)) <==> (!(r.usage_below_idle && r.throttle_below_idle)
            && (r.usage_above_busy || r.throttle_above_busy)),
        next_load_of(r) is None <==> (!(r.usage_below_idle && r.throttle_below_idle)
            && !r.usage_above_busy && !r.throttle_above_busy),
{
}

pub fn eval_next_load<M>(r: &TickReading<M>) -> (l: Option<Load>)
    ensures
        l == next_load_of(*r),
{
    if r.usage_below_idle && r.throttle_below_idle {
        Some(Load::Idle)
    } else if r.usage_above_busy || r.throttle_above_busy {
        Some(Load::Busy)
    } else {
        None
    }
}

/// The confirmation step on `(load, queued_load, ticks)` for a candidate: a
/// new candidate restarts the count at one, the same one counts up; once
/// the count reaches the candidate's confirm ticks it is reset and the
/// candidate becomes the load. Gives the new state and the changed load,
/// if any.
pub open spec fn confirm_step(load: Load, queued: Load, ticks: u64, candidate: Load, cfg: ConfirmTicks) -> (
    Load,
    Load,
    u64,
    Option<Load>,
) {
    let t = if candidate != queued {
        1
    } else {
        ticks + 1
    };
    let confirm = match candidate {
        Load::Idle => cfg.idle,
        Load::Busy => cfg.busy,
    };
    if t >= confirm {
        if load != candidate {
            (candidate, candidate, 0, Some(candidate))
        } else {
            (load, candidate, 0, None)
        }
    } else {
        (load, candidate, t as u64, None)
    }
}

/// The confirm ticks of a candidate.
pub open spec fn confirm_ticks_for(c: Load, cfg: ConfirmTicks) -> u64 {
    match c {
        Load::Idle => cfg.idle,
        Load::Busy => cfg.busy,
    }
}

/// The `(load, queued_load, ticks)` state after `n` ticks that all propose
/// the candidate `c`.
pub open spec fn confirm_run(
    load: Load,
    queued: Load,
    ticks: u64,
    c: Load,
    n: nat,
    cfg: ConfirmTicks,
) -> (Load, Load, u64)
    decreases n,
{
    if n == 0 {
        (load, queued, ticks)
    } else {
        let (l0, q0, t0) = confirm_run(load, queued, ticks, c, (n - 1) as nat, cfg);
        let (l, q, t, _) = confirm_step(l0, q0, t0, c, cfg);
        (l, q, t)
    }
}

/// A settled load (nothing queued against it) moves to another candidate
/// only once that candidate has been proposed on its confirm ticks in a
/// row: before that the load stays and the count goes up, on the last of
/// them the candidate becomes the load.
pub proof fn lemma_confirmation(load: Load, c: Load, n: nat, cfg: ConfirmTicks)
    requires
        load != c,
        confirm_ticks_for(c, cfg) >= 1,
        n <= confirm_ticks_for(c, cfg),
    ensures
        n < confirm_ticks_for(c, cfg) ==> confirm_run(load, load, 0, c, n, cfg) == if n == 0 {
            (load, load, 0u64)
        } else {
            (load, c, n as u64)
        },
        n == confirm_ticks_for(c, cfg) ==> confirm_run(load, load, 0, c, n, cfg) == (c, c, 0u64),
    decreases n,
{
    if n > 0 {
        lemma_confirmation(load, c, (n - 1) as nat, cfg);
    }
}

/// The tracker `new` and the result `r` are what one tick with the sample
/// `sample` and the reading `reading` makes of `old`: without a baseline
/// the sample becomes the baseline; a sample that could not be read against
/// the baseline changes nothing; otherwise the sample becomes the baseline,
/// the reading is kept, and a candidate goes through the confirmation step.
pub open spec fn tick_outcome<S, M>(
    old: LoadTracker<S, M>,
    new: LoadTracker<S, M>,
    sample: S,
    reading: Option<TickReading<M>>,
    cfg: ConfirmTicks,
    r: Option<Load>,
) -> bool {
    match (old.spec_last_cpu_sample(), reading) {
        (None, _) => {
            &&& r is None
            &&& new.spec_last_cpu_sample() == Some(sample)
            &&& new.spec_load() == old.spec_load()
            &&& new.spec_queued_load() == old.spec_queued_load()
            &&& new.spec_ticks() == old.spec_ticks()
            &&& new.spec_metrics() == old.spec_metrics()
        },
        (Some(_), None) => {
            &&& r is None
            &&& new == old
        },
        (Some(_), Some(rd)) => {
            &&& new.spec_last_cpu_sample() == Some(sample)
            &&& new.spec_metrics() == Some(rd.metrics)
            &&& match next_load_of(rd) {
                None => {
                    &&& r is None
                    &&& new.spec_load() == old.spec_load()
                    &&& new.spec_queued_load() == old.spec_queued_load()
                    &&& new.spec_ticks() == old.spec_ticks()
                },
                Some(c) => {
                    let (l, q, t, out) = confirm_step(
                        old.spec_load(),
                        old.spec_queued_load(),
                        old.spec_ticks(),
                        c,
                        cfg,
                    );
                    &&& new.spec_load() == l
                    &&& new.spec_queued_load() == q
                    &&& new.spec_ticks() == t
                    &&& r == out
                },
            }
        },
    }
}

/// The load of one polled window group, with confirmation ticks so a
/// candidate must persist before it is applied. `S` is the daemon's CPU
/// sample; `M` what a reading measured.
pub struct LoadTracker<S, M> {
    load: Load,
    queued_load: Load,
    ticks: u64,
    metrics: Option<M>,
    last_cpu_sample: Option<S>,
}

impl<S, M> LoadTracker<S, M> {
    pub closed spec fn spec_load(&self) -> Load {
        self.load
    }

    pub closed spec fn spec_queued_load(&self) -> Load {
        self.queued_load
    }

    pub closed spec fn spec_ticks(&self) -> u64 {
        self.ticks
    }

    pub closed spec fn spec_metrics(&self) -> Option<M> {
        self.metrics
    }

    pub closed spec fn spec_last_cpu_sample(&self) -> Option<S> {
        self.last_cpu_sample
    }

    /// The count of ticks never reaches its largest value.
    pub closed spec fn wf(&self) -> bool {
        self.ticks < u64::MAX
    }

    pub fn new() -> (r: Self)
        ensures
            r.wf(),
            r.spec_load() == Load::Busy,
            r.spec_queued_load() == Load::Busy,
            r.spec_ticks() == 0,
            r.spec_metrics() is None,
            r.spec_last_cpu_sample() is None,
    {
        Self {
            load: Load::Busy,
            queued_load: Load::Busy,
            ticks: 0,
            metrics: None,
            last_cpu_sample: None,
        }
    }

    /// The baseline that the next sample is measured against.
    pub fn last_cpu_sample(&self) -> (r: Option<&S>)
        ensures
            match (r, self.spec_last_cpu_sample()) {
                (Some(a), Some(b)) => *a == b,
                (None, None) => true,
                _ => false,
            },
    {
        match &self.last_cpu_sample {
            Some(s) => Some(s),
            None => None,
        }
    }

    /// Feed a sample. `reading` is what it says against the baseline, `None`
    /// when the two give no measurement (the sample is then dropped).
    /// Without a baseline the sample only becomes the baseline. Returns the
    /// new load when the confirmation applies a change.
    pub fn on_cpu_usage_tick(
        &mut self,
        new_cpu_sample: S,
        reading: Option<TickReading<M>>,
        config: &ConfirmTicks,
    ) -> (r: Option<Load>)
        requires
            old(self).wf(),
        ensures
            final(self).wf(),
            tick_outcome(*old(self), *final(self), new_cpu_sample, reading, *config, r),
    {
        if self.last_cpu_sample.is_none() {
            self.last_cpu_sample = Some(new_cpu_sample);
            return None;
        }
        let rd = match reading {
            Some(rd) => rd,
            None => {
                return None;
            },
        };

        let next = eval_next_load(&rd);
        self.last_cpu_sample = Some(new_cpu_sample);
        self.metrics = Some(rd.metrics);

        let candidate = match next {
            Some(c) => c,
            None => {
                return None;
            },
        };

        if candidate != self.queued_load {
            self.queued_load = candidate;
            self.ticks = 1;
        } else {
            self.ticks = self.ticks + 1;
        }

        let confirm_tick = match self.queued_load {
            Load::Idle => config.idle,
            Load::Busy => config.busy,
        };

        if self.ticks >= confirm_tick {
            self.ticks = 0;
            if self.load != self.queued_load {
                self.load = self.queued_load;
                return Some(self.load);
            }
        }
        None
    }

    /// Resets last_cpu_sample to None
    pub fn clear_baseline(&mut self)
        requires
            old(self).wf(),
        ensures
            final(self).wf(),
            final(self).spec_last_cpu_sample() is None,
            final(self).spec_load() == old(self).spec_load(),
            final(self).spec_queued_load() == old(self).spec_queued_load(),
            final(self).spec_ticks() == old(self).spec_ticks(),
            final(self).spec_metrics() == old(self).spec_metrics(),
    {
        self.last_cpu_sample = None;
    }

    /// Resets last_cpu_sample to None, ticks to 0, and queued_load to current load
    pub fn reset(&mut self)
        ensures
            final(self).wf(),
            final(self).spec_last_cpu_sample() is None,
            final(self).spec_ticks() == 0,
            final(self).spec_queued_load() == old(self).spec_load(),
            final(self).spec_load() == old(self).spec_load(),
            final(self).spec_metrics() == old(self).spec_metrics(),
    {
        self.last_cpu_sample = None;
        self.ticks = 0;
        self.queued_load = self.load;
    }

    pub fn load(&self) -> (r: Load)
        ensures
            r == self.spec_load(),
    {
        self.load
    }

    /// The usage and throttle of the last reading, `None` before the first.
    pub fn metrics(&self) -> (r: Option<&M>)
        ensures
            match (r, self.spec_metrics()) {
                (Some(a), Some(b)) => *a == b,
                (None, None) => true,
                _ => false,
            },
    {
        match &self.metrics {
            Some(m) => Some(m),
            None => None,
        }
    }
}

} // verus!
