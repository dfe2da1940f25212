//! The state kept of one app: its windows, its cgroups, its CPU load and
//! the policy it votes for.
use super::load_tracker::TickReading;
use super::policy::{tier_of, Policy};
use super::tier::Tier;
use super::wake_signals::{inhibited_by, playing_in, unit_texts, WakeSignals};
use crate::cgroup::UnitPath;
use crate::config::models::cpu_load_polling::ConfirmTicks;
use crate::table::Table;
use super::window_group::{add_unique, distinct_paths, same_units, some_active, some_unminimized, unit_set};
use vstd::prelude::*;

verus! {

#[derive(Clone, Copy, PartialEq, Eq, Debug, Structural)]
pub enum Load {
    Busy,
    Idle,
}

#[derive(Debug, Clone, Copy, PartialEq, Eq, Structural)]
pub struct Window {
    pub minimized: bool,
    pub active: bool,
}

/// Whether a refresh changed the cgroup set.
#[derive(Debug, Clone, Copy, PartialEq, Eq, Structural)]
pub enum CgroupRefreshResult {
    NoChange,
    Changed,
}

/// The policy of a tier at a load; load does not matter on performance.
pub open spec fn app_policy_of(tier: Tier, load: Load) -> Policy {
    match (tier, load) {
        (Tier::Performance, _) => Policy::Performance,
        (Tier::Background, Load::Idle) => Policy::BackgroundIdle,
        (Tier::Background, Load::Busy) => Policy::BackgroundBusy,
        (Tier::Nap, Load::Idle) => Policy::NapIdle,
        (Tier::Nap, Load::Busy) => Policy::NapBusy,
    }
}

/// Less than the idle usage AND throttle is idle; more than the busy usage
/// OR throttle is busy; in between there is no candidate.
pub open spec fn app_next_load<M>(r: TickReading<M>) -> Option<Load> {
    if r.usage_below_idle && r.throttle_below_idle {
        Some(Load::Idle)
    } else if r.usage_above_busy || r.throttle_above_busy {
        Some(Load::Busy)
    } else {
        None
    }
}

/// A reading under both idle thresholds is an idle candidate; otherwise a
/// reading over either busy threshold is a busy candidate; any other
/// reading gives none.
pub proof fn lemma_app_candidate_rules<M>(r: TickReading<M>)
    ensures
        (app_next_load(r) == Some(Load::Idle)) <==> (r.usage_below_idle && r.throttle_below_idle),
        (app_next_load(r) == Some(Load::Busy)) <==> (!(r.usage_below_idle && r.throttle_below_idle)
            && (r.usage_above_busy || r.throttle_above_busy)),
        app_next_load(r) is None <==> (!(r.usage_below_idle && r.throttle_below_idle)
            && !r.usage_above_busy && !r.throttle_above_busy),
{
}

/// The confirmation step on `(load, queued_load, ticks)` for a candidate,
/// as in the load tracker.
pub open spec fn app_confirm_step(load: Load, queued: Load, ticks: u64, candidate: Load, cfg: ConfirmTicks) -> (
    Load,
    Load,
    u64,
    bool,
) {
    let t = if candidate != queued {
        1
    } else {
        ticks + 1
    };
    let confirm = match candidate {
        Load::Idle => cfg.idle,
        Load::Busy => cfg.busy,
    };
    if t >= confirm {
        if load != candidate {
            (candidate, candidate, 0, true)
        } else {
            (load, candidate, 0, false)
        }
    } else {
        (load, candidate, t as u64, false)
    }
}

fn app_window_is_active(w: &Window) -> (b: bool)
    ensures
        b == w.active,
{
    w.active
}

fn app_window_is_unminimized(w: &Window) -> (b: bool)
    ensures
        b == !w.minimized,
{
    !w.minimized
}

/// Some window of the table is active.
pub open spec fn any_window_active(windows: Map<Seq<char>, Window>) -> bool {
    exists|k: Seq<char>| windows.dom().contains(k) && (#[trigger] windows[k]).active
}

/// Some window of the table is not minimized.
pub open spec fn any_window_unminimized(windows: Map<Seq<char>, Window>) -> bool {
    exists|k: Seq<char>| windows.dom().contains(k) && !(#[trigger] windows[k]).minimized
}

/// The tier of an app with these windows and cgroups under the wake
/// signals `ws`.
pub open spec fn recomputed_tier(windows: Map<Seq<char>, Window>, cgroups: Seq<UnitPath>, ws: WakeSignals) -> Tier {
    tier_of(
        any_window_active(windows),
        any_window_unminimized(windows),
        inhibited_by(ws.app_texts(), unit_texts(cgroups)),
        playing_in(ws.player_texts(), unit_texts(cgroups)),
    )
}

/// What is kept of one app (`S` is the daemon's CPU sample, `M` what a
/// reading measured).
pub struct AppState<S, M> {
    comm: String,
    pid: i32,
    /// key: window id
    windows: Table<Window>,
    cgroups: Vec<UnitPath>,
    load: Load,
    queued_load: Load,
    ticks: u64,
    metrics: Option<M>,
    last_cpu_sample: Option<S>,
    tier: Tier,
    voted_policy: Policy,
}

impl<S, M> AppState<S, M> {
    /// The window table is well formed, the tick count can still grow, and
    /// no cgroup is listed twice.
    pub closed spec fn wf(&self) -> bool {
        self.windows.wf() && self.ticks < u64::MAX && distinct_paths(self.cgroups@)
    }

    pub closed spec fn spec_pid(&self) -> i32 {
        self.pid
    }

    pub closed spec fn spec_comm(&self) -> Seq<char> {
        self.comm@
    }

    pub closed spec fn spec_windows(&self) -> Map<Seq<char>, Window> {
        self.windows.view()
    }

    pub closed spec fn spec_cgroups(&self) -> Seq<UnitPath> {
        self.cgroups@
    }

    pub closed spec fn spec_load(&self) -> Load {
        self.load
    }

    pub closed spec fn spec_queued_load(&self) -> Load {
        self.queued_load
    }

    pub closed spec fn spec_ticks(&self) -> u64 {
        self.ticks
    }

    pub closed spec fn spec_metrics(&self) -> Option<M> {
        self.metrics
    }

    pub closed spec fn spec_last_cpu_sample(&self) -> Option<S> {
        self.last_cpu_sample
    }

    pub closed spec fn spec_tier(&self) -> Tier {
        self.tier
    }

    pub closed spec fn spec_voted_policy(&self) -> Policy {
        self.voted_policy
    }

    /// Everything but the tier and the vote is as in `old`.
    pub open spec fn same_but_vote(&self, old: &Self) -> bool {
        &&& self.spec_pid() == old.spec_pid()
        &&& self.spec_comm() == old.spec_comm()
        &&& self.spec_windows() == old.spec_windows()
        &&& self.spec_cgroups() == old.spec_cgroups()
        &&& self.spec_load() == old.spec_load()
        &&& self.spec_queued_load() == old.spec_queued_load()
        &&& self.spec_ticks() == old.spec_ticks()
        &&& self.spec_metrics() == old.spec_metrics()
        &&& self.spec_last_cpu_sample() == old.spec_last_cpu_sample()
    }

    /// The tier and vote recomputed from the windows, the wake signals and
    /// the load.
    pub open spec fn vote_recomputed(&self, old: &Self, ws: &WakeSignals) -> bool {
        let tier = recomputed_tier(old.spec_windows(), old.spec_cgroups(), *ws);
        &&& self.same_but_vote(old)
        &&& self.spec_tier() == tier
        &&& self.spec_voted_policy() == app_policy_of(tier, old.spec_load())
    }

    pub fn new(comm: String, pid: i32) -> (r: Self)
        ensures
            r.wf(),
            r.spec_comm() == comm@,
            r.spec_pid() == pid,
            r.spec_windows() == Map::<Seq<char>, Window>::empty(),
            r.spec_cgroups().len() == 0,
            r.spec_load() == Load::Busy,
            r.spec_queued_load() == Load::Busy,
            r.spec_ticks() == 0,
            r.spec_metrics() is None,
            r.spec_last_cpu_sample() is None,
            r.spec_tier() == Tier::Performance,
            r.spec_voted_policy() == Policy::Performance,
    {
        Self {
            comm,
            pid,
            windows: Table::new(),
            cgroups: Vec::new(),
            load: Load::Busy,
            queued_load: Load::Busy,
            ticks: 0,
            metrics: None,
            last_cpu_sample: None,
            tier: Tier::Performance,
            voted_policy: Policy::Performance,
        }
    }

    pub fn has_windows(&self) -> (r: bool)
        requires
            self.wf(),
        ensures
            r == (self.spec_windows().dom().len() != 0),
    {
        !self.windows.is_empty()
    }

    /// Feeds a CPU sample. `reading` is what it says against the baseline,
    /// `None` when the two give no measurement (the sample is then dropped).
    /// Without a baseline the sample only becomes the baseline. When the
    /// confirmation changes the load, the vote is recomputed.
    pub fn on_cpu_usage_tick(
        &mut self,
        wake_signals: &WakeSignals,
        new_cpu_sample: S,
        reading: Option<TickReading<M>>,
        config: &ConfirmTicks,
    )
        requires
            old(self).wf(),
        ensures
            final(self).wf(),
            final(self).spec_pid() == old(self).spec_pid(),
            final(self).spec_comm() == old(self).spec_comm(),
            final(self).spec_windows() == old(self).spec_windows(),
            final(self).spec_cgroups() == old(self).spec_cgroups(),
            match (old(self).spec_last_cpu_sample(), reading) {
                (None, _) => {
                    &&& final(self).spec_last_cpu_sample() == Some(new_cpu_sample)
                    &&& final(self).spec_metrics() == old(self).spec_metrics()
                    &&& final(self).spec_load() == old(self).spec_load()
                    &&& final(self).spec_queued_load() == old(self).spec_queued_load()
                    &&& final(self).spec_ticks() == old(self).spec_ticks()
                    &&& final(self).spec_tier() == old(self).spec_tier()
                    &&& final(self).spec_voted_policy() == old(self).spec_voted_policy()
                },
                (Some(_), None) => *final(self) == *old(self),
                (Some(_), Some(rd)) => {
                    &&& final(self).spec_last_cpu_sample() == Some(new_cpu_sample)
                    &&& final(self).spec_metrics() == Some(rd.metrics)
                    &&& match app_next_load(rd) {
                        None => {
                            &&& final(self).spec_load() == old(self).spec_load()
                            &&& final(self).spec_queued_load() == old(self).spec_queued_load()
                            &&& final(self).spec_ticks() == old(self).spec_ticks()
                            &&& final(self).spec_tier() == old(self).spec_tier()
                            &&& final(self).spec_voted_policy() == old(self).spec_voted_policy()
                        },
                        Some(c) => {
                            let (l, q, t, changed) = app_confirm_step(
                                old(self).spec_load(),
                                old(self).spec_queued_load(),
                                old(self).spec_ticks(),
                                c,
                                *config,
                            );
                            &&& final(self).spec_load() == l
                            &&& final(self).spec_queued_load() == q
                            &&& final(self).spec_ticks() == t
                            &&& changed ==> final(self).spec_tier() == recomputed_tier(
                                old(self).spec_windows(),
                                old(self).spec_cgroups(),
                                *wake_signals,
                            )
                            &&& changed ==> final(self).spec_voted_policy() == app_policy_of(
                                final(self).spec_tier(),
                                l,
                            )
                            &&& !changed ==> final(self).spec_tier() == old(self).spec_tier()
                            &&& !changed ==> final(self).spec_voted_policy() == old(
                                self,
                            ).spec_voted_policy()
                        },
                    }
                },
            },
    {
        if self.last_cpu_sample.is_none() {
            self.last_cpu_sample = Some(new_cpu_sample);
            return ;
        }
        let rd = match reading {
            Some(rd) => rd,
            None => {
                return ;
            },
        };
        let next = Self::eval_next_load(&rd);
        self.last_cpu_sample = Some(new_cpu_sample);
        self.metrics = Some(rd.metrics);

        let candidate = match next {
            Some(c) => c,
            None => {
                return ;
            },
        };

        if candidate != self.queued_load {
            self.queued_load = candidate;
            self.ticks = 1;
        } else {
            self.ticks = self.ticks + 1;
        }

        let confirm_tick = match self.queued_load {
            Load::Idle => config.idle,
            Load::Busy => config.busy,
        };

        if self.ticks >= confirm_tick {
            self.ticks = 0;
            if self.load != self.queued_load {
                self.load = self.queued_load;
                self.recompute_vote(wake_signals);
            }
        }
    }

    fn eval_next_load(r: &TickReading<M>) -> (l: Option<Load>)
        ensures
            l == app_next_load(*r),
    {
        if r.usage_below_idle && r.throttle_below_idle {
            Some(Load::Idle)
        } else if r.usage_above_busy || r.throttle_above_busy {
            Some(Load::Busy)
        } else {
            None
        }
    }

    fn eval_tier(
        is_any_active: bool,
        is_any_unminimized: bool,
        is_inhibiting: bool,
        is_playing_media: bool,
    ) -> (r: Tier)
        ensures
            r == tier_of(is_any_active, is_any_unminimized, is_inhibiting, is_playing_media),
    {
        if is_any_active || is_inhibiting {
            Tier::Performance
        } else if is_any_unminimized || is_playing_media {
            // yes this is intentional
            // I only intended Background media to be throttled slightly
            Tier::Background
        } else {
            Tier::Nap
        }
    }

    fn eval_policy(tier: Tier, load: Load) -> (r: Policy)
        ensures
            r == app_policy_of(tier, load),
    {
        match (tier, load) {
            (Tier::Performance, _) => Policy::Performance,
            (Tier::Background, Load::Idle) => Policy::BackgroundIdle,
            (Tier::Background, Load::Busy) => Policy::BackgroundBusy,
            (Tier::Nap, Load::Idle) => Policy::NapIdle,
            (Tier::Nap, Load::Busy) => Policy::NapBusy,
        }
    }

    /// Takes the app's related units as the daemon resolved them (`None`
    /// when the lookup failed): a different set replaces the old one and
    /// drops the sample baseline.
    pub fn refresh_cgroups(&mut self, related: Option<Vec<UnitPath>>) -> (r: CgroupRefreshResult)
        requires
            old(self).wf(),
        ensures
            final(self).wf(),
            match related {
                Some(c) => if unit_set(c@) != unit_set(old(self).spec_cgroups()) {
                    &&& r == CgroupRefreshResult::Changed
                    &&& unit_set(final(self).spec_cgroups()) == unit_set(c@)
                    &&& final(self).spec_last_cpu_sample() is None
                    &&& final(self).spec_load() == old(self).spec_load()
                    &&& final(self).spec_windows() == old(self).spec_windows()
                    &&& final(self).spec_voted_policy() == old(self).spec_voted_policy()
                } else {
                    r == CgroupRefreshResult::NoChange && *final(self) == *old(self)
                },
                None => r == CgroupRefreshResult::NoChange && *final(self) == *old(self),
            },
    {
        match related {
            Some(cgroups) => {
                if same_units(&cgroups, &self.cgroups) {
                    CgroupRefreshResult::NoChange
                } else {
                    let mut distinct: Vec<UnitPath> = Vec::new();
                    add_unique(&mut distinct, &cgroups);
                    proof {
                        assert(unit_set(Seq::<UnitPath>::empty()) =~= Set::<Seq<char>>::empty());
                    }
                    self.cgroups = distinct;
                    self.last_cpu_sample = None;
                    CgroupRefreshResult::Changed
                }
            },
            None => CgroupRefreshResult::NoChange,
        }
    }

    /// Updates voted_policy
    pub fn recompute_vote(&mut self, wake_signals: &WakeSignals)
        requires
            old(self).wf(),
        ensures
            final(self).wf(),
            final(self).vote_recomputed(old(self), wake_signals),
    {
        let is_any_active = self.windows.any(Ghost(|w: Window| w.active), app_window_is_active);
        let is_any_unminimized = self.windows.any(
            Ghost(|w: Window| !w.minimized),
            app_window_is_unminimized,
        );
        let is_inhibiting = wake_signals.is_inhibiting(&self.cgroups);
        let is_playing_media = wake_signals.is_playing_media(&self.cgroups);

        self.tier = Self::eval_tier(
            is_any_active,
            is_any_unminimized,
            is_inhibiting,
            is_playing_media,
        );

        self.voted_policy = Self::eval_policy(self.tier, self.load);
    }

    pub fn window_minimized_changed(
        &mut self,
        window_id: &str,
        is_minimized: bool,
        wake_signals: &WakeSignals,
    )
        requires
            old(self).wf(),
        ensures
            final(self).wf(),
            old(self).spec_windows().dom().contains(window_id@) && old(
                self,
            ).spec_windows()[window_id@].minimized != is_minimized ==> exists|mid: Self|
                mid.spec_windows() == old(self).spec_windows().insert(
                    window_id@,
                    Window {
                        minimized: is_minimized,
                        active: old(self).spec_windows()[window_id@].active,
                    },
                ) && mid.spec_cgroups() == old(self).spec_cgroups() && mid.spec_load() == old(
                    self,
                ).spec_load() && #[trigger] final(self).vote_recomputed(&mid, wake_signals),
            !(old(self).spec_windows().dom().contains(window_id@) && old(
                self,
            ).spec_windows()[window_id@].minimized != is_minimized) ==> *final(self) == *old(
                self,
            ),
    {
        let w = match self.windows.get(window_id) {
            Some(w) => *w,
            None => {
                return ;
            },
        };
        if w.minimized != is_minimized {
            self.windows.insert(
                window_id.to_owned(),
                Window { minimized: is_minimized, active: w.active },
            );
            let ghost mid = *self;
            self.recompute_vote(wake_signals);
            assert(self.vote_recomputed(&mid, wake_signals));
        }
    }

    pub fn window_active_changed(
        &mut self,
        window_id: &str,
        is_active: bool,
        wake_signals: &WakeSignals,
    )
        requires
            old(self).wf(),
        ensures
            final(self).wf(),
            old(self).spec_windows().dom().contains(window_id@) && old(
                self,
            ).spec_windows()[window_id@].active != is_active ==> exists|mid: Self|
                mid.spec_windows() == old(self).spec_windows().insert(
                    window_id@,
                    Window {
                        minimized: old(self).spec_windows()[window_id@].minimized,
                        active: is_active,
                    },
                ) && mid.spec_cgroups() == old(self).spec_cgroups() && mid.spec_load() == old(
                    self,
                ).spec_load() && #[trigger] final(self).vote_recomputed(&mid, wake_signals),
            !(old(self).spec_windows().dom().contains(window_id@) && old(
                self,
            ).spec_windows()[window_id@].active != is_active) ==> *final(self) == *old(self),
    {
        let w = match self.windows.get(window_id) {
            Some(w) => *w,
            None => {
                return ;
            },
        };
        if w.active != is_active {
            self.windows.insert(
                window_id.to_owned(),
                Window { minimized: w.minimized, active: is_active },
            );
            let ghost mid = *self;
            self.recompute_vote(wake_signals);
            assert(self.vote_recomputed(&mid, wake_signals));
        }
    }

    /// Records a window (replacing any window of that id) and recomputes
    /// the vote.
    pub fn window_added(
        &mut self,
        window_id: String,
        is_minimized: bool,
        is_active: bool,
        wake_signals: &WakeSignals,
    )
        requires
            old(self).wf(),
        ensures
            final(self).wf(),
            exists|mid: Self|
                mid.spec_windows() == old(self).spec_windows().insert(
                    window_id@,
                    Window { minimized: is_minimized, active: is_active },
                ) && mid.spec_cgroups() == old(self).spec_cgroups() && mid.spec_load() == old(
                    self,
                ).spec_load() && #[trigger] final(self).vote_recomputed(&mid, wake_signals),
    {
        self.windows.insert(window_id, Window { minimized: is_minimized, active: is_active });
        let ghost mid = *self;
        self.recompute_vote(wake_signals);
        assert(self.vote_recomputed(&mid, wake_signals));
    }

    /// Forgets a window; the vote is recomputed while windows remain.
    pub fn window_removed(&mut self, window_id: &str, wake_signals: &WakeSignals)
        requires
            old(self).wf(),
        ensures
            final(self).wf(),
            final(self).spec_windows() == old(self).spec_windows().remove(window_id@),
            final(self).spec_windows().dom().len() == 0 ==> final(self).spec_voted_policy() == old(
                self,
            ).spec_voted_policy() && final(self).spec_tier() == old(self).spec_tier(),
            final(self).spec_windows().dom().len() != 0 ==> exists|mid: Self|
                mid.spec_windows() == old(self).spec_windows().remove(window_id@)
                    && mid.spec_cgroups() == old(self).spec_cgroups() && mid.spec_load() == old(
                    self,
                ).spec_load() && #[trigger] final(self).vote_recomputed(&mid, wake_signals),
    {
        let _ = self.windows.remove(window_id);
        if self.has_windows() {
            let ghost mid = *self;
            self.recompute_vote(wake_signals);
            assert(self.vote_recomputed(&mid, wake_signals));
        }
    }

    pub fn get_cgroups(&self) -> (r: &Vec<UnitPath>)
        ensures
            r@ == self.spec_cgroups(),
            self.wf() ==> distinct_paths(r@),
    {
        &self.cgroups
    }

    pub fn get_voted_policy(&self) -> (r: Policy)
        ensures
            r == self.spec_voted_policy(),
    {
        self.voted_policy
    }

    /// App is polled if not in "performance" tier
    pub fn is_polled(&self) -> (r: bool)
        ensures
            r == (self.spec_tier() != Tier::Performance),
    {
        self.tier != Tier::Performance
    }

    /// The baseline the next CPU sample is measured against.
    pub fn last_cpu_sample(&self) -> (r: Option<&S>)
        ensures
            match (r, self.spec_last_cpu_sample()) {
                (Some(a), Some(b)) => *a == b,
                (None, None) => true,
                _ => false,
            },
    {
        match &self.last_cpu_sample {
            Some(s) => Some(s),
            None => None,
        }
    }
}

} // verus!
