//! The windows of one process and the policy they vote for their units.
use super::load_tracker::{tick_outcome, Load, LoadTracker, TickReading};
use super::policy::{eval_policy, eval_tier, policy_of, tier_of, Policy};
use super::tier::Tier;
use super::wake_signals::{inhibited_by, playing_in, unit_texts, WakeSignals};
use crate::cgroup::UnitPath;
use crate::config::models::cpu_load_polling::ConfirmTicks;
use crate::table::Table;
use crate::text::str_eq;
use vstd::prelude::*;

verus! {

#[derive(Debug, Clone, Copy, PartialEq, Eq, Structural)]
pub struct Window {
    pub minimized: bool,
    pub active: bool,
}

/// Some window of the table is active.
pub open spec fn some_active(windows: Map<Seq<char>, Window>) -> bool {
    exists|k: Seq<char>| windows.dom().contains(k) && (#[trigger] windows[k]).active
}

/// Some window of the table is not minimized.
pub open spec fn some_unminimized(windows: Map<Seq<char>, Window>) -> bool {
    exists|k: Seq<char>| windows.dom().contains(k) && !(#[trigger] windows[k]).minimized
}

/// The texts of a list of unit paths, as a set.
pub open spec fn unit_set(v: Seq<UnitPath>) -> Set<Seq<char>> {
    Set::new(|t: Seq<char>| exists|i: int| 0 <= i < v.len() && (#[trigger] v[i])@ == t)
}

fn window_is_active(w: &Window) -> (b: bool)
    ensures
        b == w.active,
{
    w.active
}

fn window_is_unminimized(w: &Window) -> (b: bool)
    ensures
        b == !w.minimized,
{
    !w.minimized
}

/// Is `p` among `v`?
pub(crate) fn has_unit(v: &Vec<UnitPath>, p: &UnitPath) -> (r: bool)
    ensures
        r == unit_set(v@).contains(p@),
{
    let mut i: usize = 0;
    while i < v.len()
        invariant
            i <= v@.len(),
            forall|j: int| 0 <= j < i ==> v@[j]@ != p@,
        decreases v@.len() - i,
    {
        if str_eq(v[i].as_str(), p.as_str()) {
            assert(v@[i as int]@ == p@);
            return true;
        }
        i = i + 1;
    }
    false
}

/// No two paths of the list are the same text.
pub open spec fn distinct_paths(v: Seq<UnitPath>) -> bool {
    forall|i: int, j: int| 0 <= i < v.len() && 0 <= j < v.len() && i != j ==> v[i]@ != v[j]@
}

/// Appends the paths of `v` that `r` does not hold yet.
pub(crate) fn add_unique(r: &mut Vec<UnitPath>, v: &Vec<UnitPath>)
    requires
        distinct_paths(old(r)@),
    ensures
        distinct_paths(final(r)@),
        unit_set(final(r)@) == unit_set(old(r)@).union(unit_set(v@)),
{
    let ghost start = unit_set(r@);
    let mut i: usize = 0;
    while i < v.len()
        invariant
            i <= v@.len(),
            distinct_paths(r@),
            unit_set(r@) == start.union(unit_set(v@.take(i as int))),
        decreases v@.len() - i,
    {
        let ghost before = r@;
        if !has_unit(r, &v[i]) {
            r.push(v[i].duplicate());
            proof {
                assert forall|a: int, b: int|
                    0 <= a < r@.len() && 0 <= b < r@.len() && a != b implies r@[a]@ != r@[b]@ by {
                    if a < before.len() && b < before.len() {
                        assert(r@[a] == before[a] && r@[b] == before[b]);
                    } else if a < before.len() {
                        assert(r@[a] == before[a]);
                        assert(unit_set(before).contains(before[a]@));
                    } else {
                        assert(r@[b] == before[b]);
                        assert(unit_set(before).contains(before[b]@));
                    }
                }
            }
        }
        proof {
            assert(v@.take(i + 1) =~= v@.take(i as int).push(v@[i as int]));
            assert forall|t: Seq<char>| unit_set(r@).contains(t) <==> start.union(
                unit_set(v@.take(i + 1)),
            ).contains(t) by {
                if unit_set(r@).contains(t) {
                    let k = choose|k: int| 0 <= k < r@.len() && (#[trigger] r@[k])@ == t;
                    if k < before.len() {
                        assert(r@[k] == before[k]);
                        assert(unit_set(before).contains(t));
                        if !start.contains(t) {
                            let m = choose|m: int|
                                0 <= m < v@.take(i as int).len() && (#[trigger] v@.take(
                                    i as int,
                                )[m])@ == t;
                            assert(v@.take(i + 1)[m] == v@.take(i as int)[m]);
                        }
                    } else {
                        assert(v@.take(i + 1)[i as int]@ == t);
                    }
                }
                if start.union(unit_set(v@.take(i + 1))).contains(t) {
                    if start.contains(t) || unit_set(v@.take(i as int)).contains(t) {
                        assert(unit_set(before).contains(t));
                        let k = choose|k: int| 0 <= k < before.len() && (#[trigger] before[k])@ == t;
                        assert(r@[k] == before[k]);
                    } else {
                        let m = choose|m: int|
                            0 <= m < v@.take(i + 1).len() && (#[trigger] v@.take(i + 1)[m])@ == t;
                        if m < i {
                            assert(v@.take(i as int)[m] == v@.take(i + 1)[m]);
                        } else {
                            if has_unit_spec_holds(before, t) {
                                let k = choose|k: int| 0 <= k < before.len() && (#[trigger] before[k])@ == t;
                                assert(r@[k] == before[k]);
                            } else {
                                assert(r@[r@.len() - 1]@ == t);
                            }
                        }
                    }
                }
            }
            assert(unit_set(r@) =~= start.union(unit_set(v@.take(i + 1))));
        }
        i = i + 1;
    }
    proof {
        assert(v@.take(v@.len() as int) =~= v@);
    }
}

spec fn has_unit_spec_holds(v: Seq<UnitPath>, t: Seq<char>) -> bool {
    exists|k: int| 0 <= k < v.len() && (#[trigger] v[k])@ == t
}

/// Every unit of `a` is among `b`.
fn units_within(a: &Vec<UnitPath>, b: &Vec<UnitPath>) -> (r: bool)
    ensures
        r == unit_set(a@).subset_of(unit_set(b@)),
{
    let mut i: usize = 0;
    while i < a.len()
        invariant
            i <= a@.len(),
            forall|j: int| 0 <= j < i ==> unit_set(b@).contains(#[trigger] a@[j]@),
        decreases a@.len() - i,
    {
        if !has_unit(b, &a[i]) {
            assert(unit_set(a@).contains(a@[i as int]@));
            return false;
        }
        i = i + 1;
    }
    assert forall|t: Seq<char>| unit_set(a@).contains(t) implies unit_set(b@).contains(t) by {
        let j = choose|j: int| 0 <= j < a@.len() && (#[trigger] a@[j])@ == t;
    }
    true
}

/// The two lists hold the same units.
pub fn same_units(a: &Vec<UnitPath>, b: &Vec<UnitPath>) -> (r: bool)
    ensures
        r == (unit_set(a@) == unit_set(b@)),
{
    let r = units_within(a, b) && units_within(b, a);
    proof {
        if r {
            assert(unit_set(a@) =~= unit_set(b@));
        }
    }
    r
}

/// The windows of one process (`S` and `M` as in [`LoadTracker`]).
pub struct WindowGroup<S, M> {
    comm: String,
    pid: i32,
    /// key: window id
    windows: Table<Window>,
    unit_paths: Vec<UnitPath>,
    load_tracker: LoadTracker<S, M>,
    tier: Tier,
    policy_vote: Policy,
}

impl<S, M> WindowGroup<S, M> {
    /// The tables are well formed and no unit is listed twice.
    pub closed spec fn wf(&self) -> bool {
        self.windows.wf() && self.load_tracker.wf() && distinct_paths(self.unit_paths@)
    }

    pub closed spec fn spec_comm(&self) -> Seq<char> {
        self.comm@
    }

    pub closed spec fn spec_pid(&self) -> i32 {
        self.pid
    }

    pub closed spec fn spec_windows(&self) -> Map<Seq<char>, Window> {
        self.windows.view()
    }

    pub closed spec fn spec_unit_paths(&self) -> Seq<UnitPath> {
        self.unit_paths@
    }

    pub closed spec fn spec_tracker(&self) -> LoadTracker<S, M> {
        self.load_tracker
    }

    pub closed spec fn spec_tier(&self) -> Tier {
        self.tier
    }

    pub closed spec fn spec_vote(&self) -> Policy {
        self.policy_vote
    }

    /// The vote after a recompute: tier and policy from the windows, the
    /// wake signals and the load; a performance vote puts the load tracker
    /// back to its confirmed load without a baseline.
    pub open spec fn recomputed(&self, old: &Self, ws: &WakeSignals) -> bool {
        let tier = tier_of(
            some_active(old.spec_windows()),
            some_unminimized(old.spec_windows()),
            inhibited_by(ws.app_texts(), unit_texts(old.spec_unit_paths())),
            playing_in(ws.player_texts(), unit_texts(old.spec_unit_paths())),
        );
        let t = self.spec_tracker();
        let o = old.spec_tracker();
        &&& self.spec_tier() == tier
        &&& self.spec_vote() == policy_of(tier, o.spec_load())
        &&& self.spec_windows() == old.spec_windows()
        &&& self.spec_unit_paths() == old.spec_unit_paths()
        &&& self.spec_comm() == old.spec_comm()
        &&& self.spec_pid() == old.spec_pid()
        &&& t.spec_load() == o.spec_load()
        &&& t.spec_metrics() == o.spec_metrics()
        &&& if self.spec_vote() == Policy::Performance {
            &&& t.spec_last_cpu_sample() is None
            &&& t.spec_ticks() == 0
            &&& t.spec_queued_load() == o.spec_load()
        } else {
            t == o
        }
    }

    /// Nothing but the windows changed, and the vote was recomputed when
    /// they did.
    pub open spec fn windows_became(
        &self,
        old: &Self,
        ws: &WakeSignals,
        windows: Map<Seq<char>, Window>,
    ) -> bool {
        &&& self.spec_windows() == windows
        &&& if windows == old.spec_windows() {
            *self == *old
        } else {
            exists|mid: Self|
                mid.spec_windows() == windows && mid.spec_unit_paths() == old.spec_unit_paths()
                    && mid.spec_tracker() == old.spec_tracker() && mid.spec_comm()
                    == old.spec_comm() && mid.spec_pid() == old.spec_pid() && #[trigger] self.recomputed(
                    &mid,
                    ws,
                )
        }
    }

    pub fn new(comm: String, pid: i32) -> (r: Self)
        ensures
            r.wf(),
            r.spec_comm() == comm@,
            r.spec_pid() == pid,
            r.spec_windows() == Map::<Seq<char>, Window>::empty(),
            r.spec_unit_paths().len() == 0,
            r.spec_tier() == Tier::Performance,
            r.spec_vote() == Policy::Performance,
            r.spec_tracker().spec_load() == Load::Busy,
            r.spec_tracker().spec_last_cpu_sample() is None,
    {
        Self {
            comm,
            pid,
            windows: Table::new(),
            unit_paths: Vec::new(),
            load_tracker: LoadTracker::new(),
            tier: Tier::Performance,
            policy_vote: Policy::Performance,
        }
    }

    pub fn has_windows(&self) -> (r: bool)
        requires
            self.wf(),
        ensures
            r == (self.spec_windows().dom().len() != 0),
    {
        !self.windows.is_empty()
    }

    /// Updates policy_vote
    pub fn recompute_vote(&mut self, wake_signals: &WakeSignals)
        requires
            old(self).wf(),
        ensures
            final(self).wf(),
            final(self).recomputed(old(self), wake_signals),
    {
        let is_any_active = self.windows.any(Ghost(|w: Window| w.active), window_is_active);
        let is_any_unminimized = self.windows.any(
            Ghost(|w: Window| !w.minimized),
            window_is_unminimized,
        );
        let is_inhibiting = wake_signals.is_inhibiting(&self.unit_paths);
        let is_playing_media = wake_signals.is_playing_media(&self.unit_paths);

        self.tier = eval_tier(is_any_active, is_any_unminimized, is_inhibiting, is_playing_media);

        self.policy_vote = eval_policy(self.tier, self.load_tracker.load());

        // reset last cpu sample if performance
        if self.policy_vote == Policy::Performance {
            self.load_tracker.reset();
        }
    }

    /// `self` is `old` after one CPU tick: the load tracker takes the sample
    /// and the reading (see [`tick_outcome`]); when the load changed the vote
    /// is recomputed, otherwise nothing else changes.
    pub open spec fn ticked(
        &self,
        old: &Self,
        ws: &WakeSignals,
        sample: S,
        reading: Option<TickReading<M>>,
        cfg: ConfirmTicks,
        r: Option<Load>,
    ) -> bool {
        &&& r is None ==> {
            &&& tick_outcome(old.spec_tracker(), self.spec_tracker(), sample, reading, cfg, r)
            &&& self.spec_windows() == old.spec_windows()
            &&& self.spec_unit_paths() == old.spec_unit_paths()
            &&& self.spec_comm() == old.spec_comm()
            &&& self.spec_pid() == old.spec_pid()
            &&& self.spec_tier() == old.spec_tier()
            &&& self.spec_vote() == old.spec_vote()
        }
        &&& r is Some ==> exists|mid: Self|
            tick_outcome(old.spec_tracker(), mid.spec_tracker(), sample, reading, cfg, r)
                && mid.spec_windows() == old.spec_windows() && mid.spec_unit_paths()
                == old.spec_unit_paths() && mid.spec_comm() == old.spec_comm() && mid.spec_pid()
                == old.spec_pid() && #[trigger] self.recomputed(&mid, ws)
    }

    /// Feeds a CPU sample to the load tracker and recomputes the vote when
    /// the load changed.
    pub fn on_cpu_usage_tick(
        &mut self,
        wake_signals: &WakeSignals,
        new_cpu_sample: S,
        reading: Option<TickReading<M>>,
        config: &ConfirmTicks,
    ) -> (r: Option<Load>)
        requires
            old(self).wf(),
        ensures
            final(self).wf(),
            final(self).spec_windows() == old(self).spec_windows(),
            final(self).spec_unit_paths() == old(self).spec_unit_paths(),
            final(self).spec_pid() == old(self).spec_pid(),
            final(self).spec_comm() == old(self).spec_comm(),
            r is None ==> final(self).spec_tier() == old(self).spec_tier() && final(self).spec_vote()
                == old(self).spec_vote(),
            r matches Some(l) ==> final(self).spec_tracker().spec_load() == l
                && final(self).spec_vote() == policy_of(final(self).spec_tier(), l),
            final(self).ticked(old(self), wake_signals, new_cpu_sample, reading, *config, r),
    {
        let changed = self.load_tracker.on_cpu_usage_tick(new_cpu_sample, reading, config);
        match changed {
            Some(_) => {
                let ghost mid = *self;
                self.recompute_vote(wake_signals);
                assert(self.recomputed(&mid, wake_signals));
            },
            None => {},
        }
        changed
    }

    /// Replaces the unit set when it changed (each unit kept once),
    /// dropping the sample baseline.
    pub fn refresh_units(&mut self, unit_paths: Vec<UnitPath>)
        requires
            old(self).wf(),
        ensures
            final(self).wf(),
            final(self).spec_pid() == old(self).spec_pid(),
            final(self).spec_comm() == old(self).spec_comm(),
            unit_set(unit_paths@) == unit_set(old(self).spec_unit_paths()) ==> *final(self) == *old(
                self,
            ),
            unit_set(unit_paths@) != unit_set(old(self).spec_unit_paths()) ==> {
                &&& unit_set(final(self).spec_unit_paths()) == unit_set(unit_paths@)
                &&& final(self).spec_tracker().spec_last_cpu_sample() is None
                &&& final(self).spec_tracker().spec_load() == old(self).spec_tracker().spec_load()
                &&& final(self).spec_windows() == old(self).spec_windows()
                &&& final(self).spec_vote() == old(self).spec_vote()
                &&& final(self).spec_tier() == old(self).spec_tier()
            },
    {
        if same_units(&unit_paths, &self.unit_paths) {
            return ;
        }

        let mut distinct: Vec<UnitPath> = Vec::new();
        add_unique(&mut distinct, &unit_paths);
        proof {
            assert(unit_set(Seq::<UnitPath>::empty()) =~= Set::<Seq<char>>::empty());
        }
        self.unit_paths = distinct;
        self.load_tracker.clear_baseline();
    }

    pub fn window_minimized_changed(
        &mut self,
        window_id: &str,
        is_minimized: bool,
        wake_signals: &WakeSignals,
    )
        requires
            old(self).wf(),
        ensures
            final(self).wf(),
            final(self).windows_became(
                old(self),
                wake_signals,
                if old(self).spec_windows().dom().contains(window_id@) {
                    old(self).spec_windows().insert(
                        window_id@,
                        Window {
                            minimized: is_minimized,
                            active: old(self).spec_windows()[window_id@].active,
                        },
                    )
                } else {
                    old(self).spec_windows()
                },
            ),
    {
        let w = match self.windows.get(window_id) {
            Some(w) => *w,
            None => {
                return ;
            },
        };
        if w.minimized != is_minimized {
            let ghost before = *self;
            self.windows.insert(
                window_id.to_owned(),
                Window { minimized: is_minimized, active: w.active },
            );
            let ghost mid = *self;
            self.recompute_vote(wake_signals);
            assert(self.recomputed(&mid, wake_signals));
        } else {
            assert(self.spec_windows().insert(window_id@, w) =~= self.spec_windows());
        }
    }

    pub fn window_active_changed(
        &mut self,
        window_id: &str,
        is_active: bool,
        wake_signals: &WakeSignals,
    )
        requires
            old(self).wf(),
        ensures
            final(self).wf(),
            final(self).windows_became(
                old(self),
                wake_signals,
                if old(self).spec_windows().dom().contains(window_id@) {
                    old(self).spec_windows().insert(
                        window_id@,
                        Window {
                            minimized: old(self).spec_windows()[window_id@].minimized,
                            active: is_active,
                        },
                    )
                } else {
                    old(self).spec_windows()
                },
            ),
    {
        let w = match self.windows.get(window_id) {
            Some(w) => *w,
            None => {
                return ;
            },
        };
        if w.active != is_active {
            self.windows.insert(
                window_id.to_owned(),
                Window { minimized: w.minimized, active: is_active },
            );
            let ghost mid = *self;
            self.recompute_vote(wake_signals);
            assert(self.recomputed(&mid, wake_signals));
        } else {
            assert(self.spec_windows().insert(window_id@, w) =~= self.spec_windows());
        }
    }

    /// Records a window (replacing any window of that id) and recomputes
    /// the vote.
    pub fn window_added(
        &mut self,
        window_id: String,
        is_minimized: bool,
        is_active: bool,
        wake_signals: &WakeSignals,
    )
        requires
            old(self).wf(),
        ensures
            final(self).wf(),
            final(self).spec_pid() == old(self).spec_pid(),
            final(self).spec_comm() == old(self).spec_comm(),
            exists|mid: Self|
                mid.spec_windows() == old(self).spec_windows().insert(
                    window_id@,
                    Window { minimized: is_minimized, active: is_active },
                ) && mid.spec_unit_paths() == old(self).spec_unit_paths() && mid.spec_tracker()
                    == old(self).spec_tracker() && #[trigger] final(self).recomputed(
                    &mid,
                    wake_signals,
                ),
    {
        self.windows.insert(window_id, Window { minimized: is_minimized, active: is_active });
        let ghost mid = *self;
        self.recompute_vote(wake_signals);
        assert(self.recomputed(&mid, wake_signals));
    }

    /// Forgets a window; the vote is recomputed while windows remain.
    pub fn window_removed(&mut self, window_id: &str, wake_signals: &WakeSignals)
        requires
            old(self).wf(),
        ensures
            final(self).wf(),
            final(self).spec_windows() == old(self).spec_windows().remove(window_id@),
            final(self).spec_unit_paths() == old(self).spec_unit_paths(),
            final(self).spec_pid() == old(self).spec_pid(),
            final(self).spec_windows().dom().len() == 0 ==> final(self).spec_vote() == old(
                self,
            ).spec_vote() && final(self).spec_tier() == old(self).spec_tier(),
            final(self).spec_windows().dom().len() != 0 ==> exists|mid: Self|
                mid.spec_windows() == old(self).spec_windows().remove(window_id@)
                    && mid.spec_unit_paths() == old(self).spec_unit_paths() && mid.spec_tracker()
                    == old(self).spec_tracker() && #[trigger] final(self).recomputed(
                    &mid,
                    wake_signals,
                ),
    {
        let _ = self.windows.remove(window_id);
        if self.has_windows() {
            let ghost mid = *self;
            self.recompute_vote(wake_signals);
            assert(self.recomputed(&mid, wake_signals));
        }
    }

    /// Window group is polled if not in "performance" tier
    pub fn is_polled(&self) -> (r: bool)
        ensures
            r == (self.spec_tier() != Tier::Performance),
    {
        self.tier != Tier::Performance
    }

    pub fn unit_paths(&self) -> (r: &Vec<UnitPath>)
        ensures
            r@ == self.spec_unit_paths(),
            self.wf() ==> distinct_paths(r@),
    {
        &self.unit_paths
    }

    pub fn policy_vote(&self) -> (r: Policy)
        ensures
            r == self.spec_vote(),
    {
        self.policy_vote
    }

    pub fn window_pid(&self) -> (r: i32)
        ensures
            r == self.spec_pid(),
    {
        self.pid
    }

    pub fn comm(&self) -> (r: &str)
        ensures
            r@ == self.spec_comm(),
    {
        self.comm.as_str()
    }

    /// The usage and throttle of the last reading, `None` before the first.
    pub fn metrics(&self) -> (r: Option<&M>)
        ensures
            match (r, self.spec_tracker().spec_metrics()) {
                (Some(a), Some(b)) => *a == b,
                (None, None) => true,
                _ => false,
            },
    {
        self.load_tracker.metrics()
    }

    /// The baseline the next CPU sample is measured against.
    pub fn last_cpu_sample(&self) -> (r: Option<&S>)
        ensures
            match (r, self.spec_tracker().spec_last_cpu_sample()) {
                (Some(a), Some(b)) => *a == b,
                (None, None) => true,
                _ => false,
            },
    {
        self.load_tracker.last_cpu_sample()
    }

    pub fn window_count(&self) -> (r: usize)
        requires
            self.wf(),
        ensures
            r == self.spec_windows().dom().len(),
    {
        self.windows.len()
    }
}

} // verus!
