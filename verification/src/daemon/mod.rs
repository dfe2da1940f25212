//! The daemon's decisions: which tier and which policy each app gets, how
//! its CPU load moves between busy and idle, and how a policy is applied and
//! rolled back. The daemon performs the I/O and feeds the outcomes back.
pub mod app_state;
pub mod ledger;
pub mod load_tracker;
pub mod models;
pub mod policies;
pub mod policy;
pub mod policy_router;
pub mod process;
pub mod rollback;
pub mod service;
pub mod snapshot;
pub mod tier_policy;
pub mod tier_policy_set;
pub mod transition;

use crate::cgroup::cpu_stat::CpuStat;
use crate::cgroup::{UnitName, UnitPath};
use crate::config::models::cpu_load_polling::ConfirmTicks;
use std::collections::HashMap;
use vstd::std_specs::hash::spec_keys_iter;
use vstd::std_specs::iter::IteratorSpec;
use crate::table::{entries_map, Table};
use crate::text::{has_text, unique_texts};
use ledger::{
    consistent, joined, kept_applied, lemma_add_group, lemma_join, lemma_leave, lemma_remove_group,
    lemma_same_voters, left,
};
use models::app_snapshot::AppSnapshot;
use models::cpu_sample::CpuSample;
use models::load_tracker::{Load, TickReading};
use models::managed_unit::ManagedUnit;
use models::policy::{max_vote, policy_of, tier_of, wakefulness, Policy};
use models::tier::Tier;
use models::wake_signals::{inhibited_by, playing_in, unit_texts, WakeSignals};
use models::window_group::{
    add_unique, distinct_paths, has_unit, same_units, some_active, some_unminimized, unit_set, Window, WindowGroup,
};
use policy_router::PolicyRouter;
use std::collections::BTreeSet;
use transition::{needs_transition, PolicyTransition, TransitionStage};
use vstd::prelude::*;

verus! {

broadcast use vstd::std_specs::btree::group_btree_axioms, vstd::laws_cmp::group_laws_cmp;

/// The units each window group (by pid) has processes in.
pub open spec fn listing<S, M>(groups: Map<i32, WindowGroup<S, M>>) -> Map<i32, Set<Seq<char>>> {
    groups.map_values(|g: WindowGroup<S, M>| unit_set(g.spec_unit_paths()))
}

/// The tier a group's windows and units give under the wake signals `ws`.
pub open spec fn group_tier<S, M>(g: WindowGroup<S, M>, ws: WakeSignals) -> Tier {
    tier_of(
        some_active(g.spec_windows()),
        some_unminimized(g.spec_windows()),
        inhibited_by(ws.app_texts(), unit_texts(g.spec_unit_paths())),
        playing_in(ws.player_texts(), unit_texts(g.spec_unit_paths())),
    )
}

/// The pids of `m`, each once, in the map's own order.
fn pid_keys<V>(m: &HashMap<i32, V>) -> (r: Vec<i32>)
    ensures
        r@.no_duplicates(),
        r@.to_set() == m@.dom(),
{
    let ghost all = spec_keys_iter(m).remaining().unref();
    let mut r: Vec<i32> = Vec::new();
    for k in it: m.keys()
        invariant
            it.seq().unref() == all,
            r@ == all.take(it.index()),
    {
        r.push(*k);
    }
    assert(r@ =~= all);
    r
}

/// A policy to revert on a unit that no window group votes on any more.
pub struct UnitRevert {
    pub unit_path: UnitPath,
    pub unit_name: UnitName,
    pub policy: Policy,
}

/// The group `pid` leaves the unit `unit_path`; a unit left with no voter
/// is dropped, and its applied policy, if any, is handed back to revert.
fn leave_unit(units: &mut Table<ManagedUnit>, unit_path: &UnitPath, pid: i32) -> (r: Option<UnitRevert>)
    requires
        old(units).wf(),
    ensures
        final(units).wf(),
        left(old(units).view(), final(units).view(), unit_path@, pid),
        match r {
            Some(rv) => {
                &&& old(units).view().dom().contains(unit_path@)
                &&& old(units).view()[unit_path@].voters@.remove(pid).is_empty()
                &&& old(units).view()[unit_path@].applied_policy == Some(rv.policy)
                &&& rv.unit_path@ == unit_path@
                &&& rv.unit_name == old(units).view()[unit_path@].name
            },
            None => !old(units).view().dom().contains(unit_path@) || !old(
                units,
            ).view()[unit_path@].voters@.remove(pid).is_empty()
                || old(units).view()[unit_path@].applied_policy is None,
        },
{
    let ghost before = units.view();
    let mut unit = match units.remove(unit_path.as_str()) {
        Some(unit) => unit,
        None => {
            return None;
        },
    };
    unit.voters.remove(&pid);
    if !unit.voters.is_empty() {
        units.insert(unit_path.to_string(), unit);
        return None;
    }
    match unit.applied_policy {
        Some(policy) => Some(
            UnitRevert { unit_path: unit_path.duplicate(), unit_name: unit.name, policy },
        ),
        None => None,
    }
}

/// The group `pid` joins the unit `unit_path`, which enters the ledger with
/// no policy applied when it is new.
fn join_unit(units: &mut Table<ManagedUnit>, unit_path: &UnitPath, pid: i32)
    requires
        old(units).wf(),
    ensures
        final(units).wf(),
        joined(old(units).view(), final(units).view(), unit_path@, pid),
{
    let mut unit = match units.remove(unit_path.as_str()) {
        Some(unit) => unit,
        None => ManagedUnit::new(UnitName::from(unit_path), BTreeSet::new()),
    };
    unit.voters.insert(pid);
    units.insert(unit_path.to_string(), unit);
}


/// `reverts` are the policies to revert after the ledger went from `old`
/// to `new`: one for each unit that left the ledger with a policy applied.
pub open spec fn reverts_of(
    old: Map<Seq<char>, ManagedUnit>,
    new: Map<Seq<char>, ManagedUnit>,
    reverts: Seq<UnitRevert>,
) -> bool {
    &&& forall|i: int|
        0 <= i < reverts.len() ==> {
            let u = (#[trigger] reverts[i]).unit_path@;
            &&& old.dom().contains(u)
            &&& !new.dom().contains(u)
            &&& old[u].applied_policy == Some(reverts[i].policy)
            &&& old[u].name == reverts[i].unit_name
        }
    &&& forall|u: Seq<char>|
        #[trigger] old.dom().contains(u) && !new.dom().contains(u) && old[u].applied_policy is Some
            ==> exists|i: int| 0 <= i < reverts.len() && (#[trigger] reverts[i]).unit_path@ == u
}


/// The daemon's state: the window groups by pid, the units they vote on,
/// the wake signals, the load confirmation settings and the policies'
/// actions (`S` is a CPU sample, `M` the usage and throttle of a reading,
/// as in [`WindowGroup`]).
pub struct Daemon<S, M> {
    window_groups: HashMap<i32, WindowGroup<S, M>>,
    // this is needed because reverting a policy change requires us to know which unit to revert from
    units: Table<ManagedUnit>,
    wake_signals: WakeSignals,
    cpu_load_polling_config: ConfirmTicks,
    policy_router: PolicyRouter,
}

impl<S, M> Daemon<S, M> {
    pub closed spec fn spec_groups(&self) -> Map<i32, WindowGroup<S, M>> {
        self.window_groups@
    }

    pub closed spec fn spec_units(&self) -> Map<Seq<char>, ManagedUnit> {
        self.units.view()
    }

    pub closed spec fn spec_wake_signals(&self) -> WakeSignals {
        self.wake_signals
    }

    pub closed spec fn spec_confirm(&self) -> ConfirmTicks {
        self.cpu_load_polling_config
    }

    pub closed spec fn spec_router(&self) -> PolicyRouter {
        self.policy_router
    }

    /// The tables are well formed, each group is well formed and filed
    /// under its own pid, the ledger agrees with the groups' units, and no
    /// wake signal is listed twice.
    pub closed spec fn wf(&self) -> bool {
        &&& self.units.wf()
        &&& self.wake_signals.wf()
        &&& forall|p: i32|
            #[trigger] self.window_groups@.dom().contains(p) ==> self.window_groups@[p].wf()
                && self.window_groups@[p].spec_pid() == p
        &&& consistent(listing(self.window_groups@), self.units.view())
    }

    /// A unit is managed exactly while some window group has processes in
    /// it, and its voters are exactly those groups; every group is well
    /// formed.
    pub proof fn lemma_ledger(&self)
        requires
            self.wf(),
        ensures
            consistent(listing(self.spec_groups()), self.spec_units()),
            forall|p: i32|
                #[trigger] self.spec_groups().dom().contains(p) ==> self.spec_groups()[p].wf()
                    && self.spec_groups()[p].spec_pid() == p,
    {
    }

    /// A daemon with no window group and no unit yet.
    pub fn new(policy_router: PolicyRouter, cpu_load_polling_config: ConfirmTicks) -> (r: Self)
        ensures
            r.wf(),
            r.spec_groups() == Map::<i32, WindowGroup<S, M>>::empty(),
            r.spec_units() == Map::<Seq<char>, ManagedUnit>::empty(),
            r.spec_wake_signals().app_texts().len() == 0,
            r.spec_wake_signals().player_texts().len() == 0,
            r.spec_confirm() == cpu_load_polling_config,
            r.spec_router() == policy_router,
    {
        let r = Daemon {
            window_groups: HashMap::new(),
            units: Table::new(),
            wake_signals: WakeSignals::default(),
            cpu_load_polling_config,
            policy_router,
        };
        proof {
            assert(listing(r.window_groups@) =~= Map::<i32, Set<Seq<char>>>::empty());
        }
        r
    }

    /// The actions of the policies.
    pub fn policy_router(&self) -> (r: &PolicyRouter)
        ensures
            *r == self.spec_router(),
    {
        &self.policy_router
    }

    /// Refreshes the units of the group `pid` from `related` (the units its
    /// processes run in, `None` when they could not be read) and moves the
    /// group's votes along. Returns the units whose votes may have changed
    /// (the old and the new ones, each once) and the policies to revert on
    /// units no group votes on any more.
    fn link_group_to_units(&mut self, pid: i32, related: Option<Vec<UnitPath>>) -> (r: (Vec<UnitPath>, Vec<UnitRevert>))
        requires
            old(self).wf(),
            old(self).spec_groups().dom().contains(pid),
        ensures
            final(self).wf(),
            final(self).spec_wake_signals() == old(self).spec_wake_signals(),
            final(self).spec_confirm() == old(self).spec_confirm(),
            final(self).spec_router() == old(self).spec_router(),
            final(self).spec_groups().dom() == old(self).spec_groups().dom(),
            forall|p: i32| p != pid && #[trigger] old(self).spec_groups().dom().contains(p)
                ==> final(self).spec_groups()[p] == old(self).spec_groups()[p],
            distinct_paths(r.0@),
            match related {
                None => {
                    &&& final(self).spec_groups()[pid] == old(self).spec_groups()[pid]
                    &&& final(self).spec_units() == old(self).spec_units()
                    &&& unit_set(r.0@) == unit_set(old(self).spec_groups()[pid].spec_unit_paths())
                    &&& r.1@.len() == 0
                },
                Some(v) => {
                    let g = old(self).spec_groups()[pid];
                    let h = final(self).spec_groups()[pid];
                    &&& unit_set(v@) == unit_set(g.spec_unit_paths()) ==> h == g
                        && final(self).spec_units() == old(self).spec_units()
                        && unit_set(r.0@) == unit_set(g.spec_unit_paths()) && r.1@.len() == 0
                    &&& unit_set(v@) != unit_set(g.spec_unit_paths()) ==> {
                        &&& unit_set(h.spec_unit_paths()) == unit_set(v@)
                        &&& h.spec_comm() == g.spec_comm()
                        &&& h.spec_tracker().spec_last_cpu_sample() is None
                        &&& h.spec_tracker().spec_load() == g.spec_tracker().spec_load()
                        &&& h.spec_windows() == g.spec_windows()
                        &&& h.spec_vote() == g.spec_vote()
                        &&& h.spec_tier() == g.spec_tier()
                        &&& unit_set(r.0@) == unit_set(g.spec_unit_paths()).union(unit_set(v@))
                    }
                },
            },
            reverts_of(old(self).spec_units(), final(self).spec_units(), r.1@),
            kept_applied(old(self).spec_units(), final(self).spec_units()),
    {
        let ghost groups0 = self.window_groups@;
        let ghost units0 = self.units.view();
        let ghost ws0 = self.wake_signals;
        let ghost confirm0 = self.cpu_load_polling_config;
        let ghost router0 = self.policy_router;
        let mut group = match self.window_groups.remove(&pid) {
            Some(g) => g,
            None => {
                assert(false);
                return (Vec::new(), Vec::new());
            },
        };
        let mut old_paths: Vec<UnitPath> = Vec::new();
        add_unique(&mut old_paths, group.unit_paths());
        proof {
            assert(unit_set(Seq::<UnitPath>::empty()) =~= Set::<Seq<char>>::empty());
            assert(unit_set(old_paths@) =~= unit_set(group.spec_unit_paths()));
        }
        let new_paths = match related {
            Some(v) => v,
            None => {
                self.window_groups.insert(pid, group);
                proof {
                    assert(self.window_groups@ =~= groups0);
                    assert(self.wf());
                }
                return (old_paths, Vec::new());
            },
        };
        let ghost g0 = group;
        group.refresh_units(new_paths);
        let changed = !same_units(&old_paths, group.unit_paths());
        let mut new_copy: Vec<UnitPath> = Vec::new();
        add_unique(&mut new_copy, group.unit_paths());
        proof {
            assert(unit_set(Seq::<UnitPath>::empty()) =~= Set::<Seq<char>>::empty());
            assert(unit_set(new_copy@) =~= unit_set(group.spec_unit_paths()));
        }
        let ghost g1 = group;
        self.window_groups.insert(pid, group);
        let ghost groups1 = self.window_groups@;
        let ghost l0 = listing(groups0);
        let ghost old_set = unit_set(old_paths@);
        let ghost new_set = unit_set(new_copy@);
        proof {
            assert(listing(groups1) =~= l0.insert(pid, new_set));
            assert(l0.insert(pid, old_set) =~= l0);
            assert forall|q: i32| #[trigger] groups1.dom().contains(q) implies groups1[q].wf()
                && groups1[q].spec_pid() == q by {
                if q != pid {
                    assert(groups0.dom().contains(q));
                }
            }
        }
        if !changed {
            proof {
                assert(self.window_groups@ =~= groups0);
                assert(self.wf());
            }
            return (old_paths, Vec::new());
        }
        let mut reverts: Vec<UnitRevert> = Vec::new();
        let ghost mut t: Set<Seq<char>> = old_set;
        let mut i: usize = 0;
        while i < old_paths.len()
            invariant
                i <= old_paths@.len(),
                self.units.wf(),
                self.window_groups@ == groups1,
                self.wake_signals == ws0,
                self.cpu_load_polling_config == confirm0,
                self.policy_router == router0,
                forall|q: i32| #[trigger] groups1.dom().contains(q) ==> groups1[q].wf() && groups1[q].spec_pid() == q,
                listing(groups1) == l0.insert(pid, new_set),
                l0.dom().contains(pid),
                old_set == unit_set(old_paths@),
                new_set == unit_set(new_copy@),
                consistent(l0.insert(pid, t), self.units.view()),
                old_set.intersect(new_set).subset_of(t),
                t.subset_of(old_set),
                forall|j: int| 0 <= j < i ==> new_set.contains(#[trigger] old_paths@[j]@) || !t.contains(old_paths@[j]@),
                forall|u: Seq<char>| #[trigger] units0.dom().contains(u) && new_set.contains(u)
                    ==> self.units.view().dom().contains(u),
                forall|u: Seq<char>| #[trigger] self.units.view().dom().contains(u) ==> units0.dom().contains(u)
                    && self.units.view()[u].name == units0[u].name
                    && self.units.view()[u].applied_policy == units0[u].applied_policy,
                forall|k: int| 0 <= k < reverts@.len() ==> {
                    let u = (#[trigger] reverts@[k]).unit_path@;
                    &&& units0.dom().contains(u)
                    &&& !self.units.view().dom().contains(u)
                    &&& !new_set.contains(u)
                    &&& units0[u].applied_policy == Some(reverts@[k].policy)
                    &&& units0[u].name == reverts@[k].unit_name
                },
                forall|u: Seq<char>|
                    #[trigger] units0.dom().contains(u) && !self.units.view().dom().contains(u)
                        && units0[u].applied_policy is Some ==> exists|k: int|
                        0 <= k < reverts@.len() && (#[trigger] reverts@[k]).unit_path@ == u,
            decreases old_paths@.len() - i,
        {
            let p = &old_paths[i];
            if !has_unit(&new_copy, p) {
                let ghost before = self.units.view();
                let rv = leave_unit(&mut self.units, p, pid);
                proof {
                    lemma_leave(l0.insert(pid, t), before, self.units.view(), p@, pid);
                    assert(l0.insert(pid, t).insert(pid, l0.insert(pid, t)[pid].remove(p@)) =~= l0.insert(pid, t.remove(p@)));
                    t = t.remove(p@);
                }
                let ghost old_rev = reverts@;
                match rv {
                    Some(rv) => {
                        reverts.push(rv);
                    },
                    None => {},
                }
                proof {
                    assert forall|k: int| 0 <= k < old_rev.len() implies reverts@[k] == old_rev[k] by {}
                    assert forall|u: Seq<char>|
                        #[trigger] units0.dom().contains(u) && !self.units.view().dom().contains(u)
                            && units0[u].applied_policy is Some implies exists|k: int|
                            0 <= k < reverts@.len() && (#[trigger] reverts@[k]).unit_path@ == u by {
                        if before.dom().contains(u) {
                            assert(u == p@);
                            assert(reverts@[reverts@.len() - 1].unit_path@ == u);
                        } else {
                            let k = choose|k: int| 0 <= k < old_rev.len() && (#[trigger] old_rev[k]).unit_path@ == u;
                            assert(reverts@[k] == old_rev[k]);
                        }
                    }
                }
            }
            i = i + 1;
        }
        proof {
            assert forall|x: Seq<char>| t.contains(x) implies old_set.intersect(new_set).contains(x) by {
                let j = choose|j: int| 0 <= j < old_paths@.len() && (#[trigger] old_paths@[j])@ == x;
            }
            assert(t =~= old_set.intersect(new_set));
        }
        let mut i: usize = 0;
        while i < new_copy.len()
            invariant
                i <= new_copy@.len(),
                self.units.wf(),
                self.window_groups@ == groups1,
                self.wake_signals == ws0,
                self.cpu_load_polling_config == confirm0,
                self.policy_router == router0,
                forall|q: i32| #[trigger] groups1.dom().contains(q) ==> groups1[q].wf() && groups1[q].spec_pid() == q,
                listing(groups1) == l0.insert(pid, new_set),
                l0.dom().contains(pid),
                old_set == unit_set(old_paths@),
                new_set == unit_set(new_copy@),
                consistent(l0.insert(pid, t), self.units.view()),
                t == old_set.intersect(new_set).union(unit_set(new_copy@.take(i as int))),
                forall|u: Seq<char>| #[trigger] units0.dom().contains(u) && new_set.contains(u)
                    ==> self.units.view().dom().contains(u),
                kept_applied(units0, self.units.view()),
                forall|k: int| 0 <= k < reverts@.len() ==> {
                    let u = (#[trigger] reverts@[k]).unit_path@;
                    &&& units0.dom().contains(u)
                    &&& !self.units.view().dom().contains(u)
                    &&& !new_set.contains(u)
                    &&& units0[u].applied_policy == Some(reverts@[k].policy)
                    &&& units0[u].name == reverts@[k].unit_name
                },
                forall|u: Seq<char>|
                    #[trigger] units0.dom().contains(u) && !self.units.view().dom().contains(u)
                        && units0[u].applied_policy is Some ==> exists|k: int|
                        0 <= k < reverts@.len() && (#[trigger] reverts@[k]).unit_path@ == u,
            decreases new_copy@.len() - i,
        {
            let p = &new_copy[i];
            let ghost before = self.units.view();
            proof {
                assert(new_copy@.take(i + 1) =~= new_copy@.take(i as int).push(*p));
                assert(unit_set(new_copy@.take(i + 1)) =~= unit_set(new_copy@.take(i as int)).insert(p@)) by {
                    assert forall|x: Seq<char>| unit_set(new_copy@.take(i + 1)).contains(x) implies unit_set(new_copy@.take(i as int)).insert(p@).contains(x) by {
                        let j = choose|j: int| 0 <= j < new_copy@.take(i + 1).len() && (#[trigger] new_copy@.take(i + 1)[j])@ == x;
                        if j < i {
                            assert(new_copy@.take(i as int)[j] == new_copy@.take(i + 1)[j]);
                        }
                    }
                    assert forall|x: Seq<char>| unit_set(new_copy@.take(i as int)).insert(p@).contains(x) implies unit_set(new_copy@.take(i + 1)).contains(x) by {
                        if x == p@ {
                            assert(new_copy@.take(i + 1)[i as int] == *p);
                        } else {
                            let j = choose|j: int| 0 <= j < new_copy@.take(i as int).len() && (#[trigger] new_copy@.take(i as int)[j])@ == x;
                            assert(new_copy@.take(i + 1)[j] == new_copy@.take(i as int)[j]);
                        }
                    }
                }
                assert(new_set.contains(p@)) by {
                    assert(new_copy@[i as int] == *p);
                }
            }
            if !has_unit(&old_paths, p) {
                join_unit(&mut self.units, p, pid);
                proof {
                    lemma_join(l0.insert(pid, t), before, self.units.view(), p@, pid);
                    assert(l0.insert(pid, t).insert(pid, l0.insert(pid, t)[pid].insert(p@)) =~= l0.insert(pid, t.insert(p@)));
                    t = t.insert(p@);
                    assert forall|u: Seq<char>|
                        #[trigger] units0.dom().contains(u) && !self.units.view().dom().contains(u)
                            && units0[u].applied_policy is Some implies exists|k: int|
                            0 <= k < reverts@.len() && (#[trigger] reverts@[k]).unit_path@ == u by {
                        assert(!before.dom().contains(u));
                    }
                }
            } else {
                proof {
                    assert(t.insert(p@) =~= t);
                }
            }
            proof {
                assert(t =~= old_set.intersect(new_set).union(unit_set(new_copy@.take(i + 1))));
            }
            i = i + 1;
        }
        proof {
            assert(new_copy@.take(new_copy@.len() as int) =~= new_copy@);
            assert(t =~= new_set);
            assert(consistent(listing(self.window_groups@), self.units.view()));
        }
        let mut affected: Vec<UnitPath> = Vec::new();
        add_unique(&mut affected, &old_paths);
        add_unique(&mut affected, &new_copy);
        proof {
            assert(unit_set(Seq::<UnitPath>::empty()) =~= Set::<Seq<char>>::empty());
            assert(unit_set(affected@) =~= old_set.union(new_set));
            assert(self.wf());
        }
        (affected, reverts)
    }
}

/// A group whose units stay the same leaves the listing as it is.
proof fn lemma_same_listing<S, M>(groups: Map<i32, WindowGroup<S, M>>, pid: i32, g: WindowGroup<S, M>)
    requires
        groups.dom().contains(pid),
        g.spec_unit_paths() == groups[pid].spec_unit_paths(),
    ensures
        listing(groups.insert(pid, g)) == listing(groups),
{
    assert(listing(groups.insert(pid, g)) =~= listing(groups));
}

/// A change of the windows leaves the group's units, pid and command as
/// they were.
proof fn lemma_windows_became<S, M>(
    g: WindowGroup<S, M>,
    old: WindowGroup<S, M>,
    ws: WakeSignals,
    w: Map<Seq<char>, Window>,
)
    requires
        g.windows_became(&old, &ws, w),
    ensures
        g.spec_unit_paths() == old.spec_unit_paths(),
        g.spec_pid() == old.spec_pid(),
{
    if w != old.spec_windows() {
        let mid = choose|mid: WindowGroup<S, M>|
            mid.spec_windows() == w && mid.spec_unit_paths() == old.spec_unit_paths()
                && mid.spec_tracker() == old.spec_tracker() && mid.spec_comm() == old.spec_comm()
                && mid.spec_pid() == old.spec_pid() && #[trigger] g.recomputed(&mid, &ws);
    }
}

/// The windows of a group after a window's minimized flag changed.
pub open spec fn with_minimized(windows: Map<Seq<char>, Window>, id: Seq<char>, minimized: bool) -> Map<Seq<char>, Window> {
    if windows.dom().contains(id) {
        windows.insert(id, Window { minimized, active: windows[id].active })
    } else {
        windows
    }
}

/// The windows of a group after a window's active flag changed.
pub open spec fn with_active(windows: Map<Seq<char>, Window>, id: Seq<char>, active: bool) -> Map<Seq<char>, Window> {
    if windows.dom().contains(id) {
        windows.insert(id, Window { minimized: windows[id].minimized, active })
    } else {
        windows
    }
}

impl<S, M> Daemon<S, M> {
    /// Everything but the group `pid` and the ledger is as in `old`.
    pub open spec fn same_but_group(&self, old: &Self, pid: i32) -> bool {
        &&& self.spec_wake_signals() == old.spec_wake_signals()
        &&& self.spec_confirm() == old.spec_confirm()
        &&& self.spec_router() == old.spec_router()
        &&& forall|p: i32|
            p != pid ==> (#[trigger] self.spec_groups().dom().contains(p) == old.spec_groups().dom().contains(p))
                && (old.spec_groups().dom().contains(p) ==> self.spec_groups()[p] == old.spec_groups()[p])
    }

    /// A window's minimized flag changed. Returns the units whose votes may
    /// have changed: the group's units (none for an unknown pid).
    pub fn window_minimized_changed(&mut self, window_id: &str, pid: i32, minimized: bool) -> (r: Vec<UnitPath>)
        requires
            old(self).wf(),
        ensures
            final(self).wf(),
            final(self).same_but_group(old(self), pid),
            final(self).spec_units() == old(self).spec_units(),
            distinct_paths(r@),
            !old(self).spec_groups().dom().contains(pid) ==> *final(self) == *old(self) && r@.len() == 0,
            old(self).spec_groups().dom().contains(pid) ==> {
                &&& final(self).spec_groups().dom().contains(pid)
                &&& final(self).spec_groups()[pid].windows_became(
                    &old(self).spec_groups()[pid],
                    &old(self).spec_wake_signals(),
                    with_minimized(old(self).spec_groups()[pid].spec_windows(), window_id@, minimized),
                )
                &&& unit_set(r@) == unit_set(old(self).spec_groups()[pid].spec_unit_paths())
            },
    {
        let ghost groups0 = self.window_groups@;
        if !self.window_groups.contains_key(&pid) {
            return Vec::new();
        }
        let mut group = match self.window_groups.remove(&pid) {
            Some(g) => g,
            None => {
                assert(false);
                return Vec::new();
            },
        };
        group.window_minimized_changed(window_id, minimized, &self.wake_signals);
        let mut affected: Vec<UnitPath> = Vec::new();
        add_unique(&mut affected, group.unit_paths());
        proof {
            lemma_windows_became(group, groups0[pid], self.wake_signals, with_minimized(groups0[pid].spec_windows(), window_id@, minimized));
            lemma_same_listing(groups0, pid, group);
            assert(unit_set(Seq::<UnitPath>::empty()) =~= Set::<Seq<char>>::empty());
            assert(unit_set(affected@) =~= unit_set(group.spec_unit_paths()));
        }
        self.window_groups.insert(pid, group);
        proof {
            assert(self.window_groups@ =~= groups0.insert(pid, group));
            assert forall|q: i32| #[trigger] self.window_groups@.dom().contains(q) implies self.window_groups@[q].wf()
                && self.window_groups@[q].spec_pid() == q by {
                if q != pid {
                    assert(groups0.dom().contains(q));
                }
            }
        }
        affected
    }

    /// A window's active flag changed. Returns the units whose votes may
    /// have changed: the group's units (none for an unknown pid).
    pub fn window_active_changed(&mut self, window_id: &str, pid: i32, active: bool) -> (r: Vec<UnitPath>)
        requires
            old(self).wf(),
        ensures
            final(self).wf(),
            final(self).same_but_group(old(self), pid),
            final(self).spec_units() == old(self).spec_units(),
            distinct_paths(r@),
            !old(self).spec_groups().dom().contains(pid) ==> *final(self) == *old(self) && r@.len() == 0,
            old(self).spec_groups().dom().contains(pid) ==> {
                &&& final(self).spec_groups().dom().contains(pid)
                &&& final(self).spec_groups()[pid].windows_became(
                    &old(self).spec_groups()[pid],
                    &old(self).spec_wake_signals(),
                    with_active(old(self).spec_groups()[pid].spec_windows(), window_id@, active),
                )
                &&& unit_set(r@) == unit_set(old(self).spec_groups()[pid].spec_unit_paths())
            },
    {
        let ghost groups0 = self.window_groups@;
        if !self.window_groups.contains_key(&pid) {
            return Vec::new();
        }
        let mut group = match self.window_groups.remove(&pid) {
            Some(g) => g,
            None => {
                assert(false);
                return Vec::new();
            },
        };
        group.window_active_changed(window_id, active, &self.wake_signals);
        let mut affected: Vec<UnitPath> = Vec::new();
        add_unique(&mut affected, group.unit_paths());
        proof {
            lemma_windows_became(group, groups0[pid], self.wake_signals, with_active(groups0[pid].spec_windows(), window_id@, active));
            lemma_same_listing(groups0, pid, group);
            assert(unit_set(Seq::<UnitPath>::empty()) =~= Set::<Seq<char>>::empty());
            assert(unit_set(affected@) =~= unit_set(group.spec_unit_paths()));
        }
        self.window_groups.insert(pid, group);
        proof {
            assert(self.window_groups@ =~= groups0.insert(pid, group));
            assert forall|q: i32| #[trigger] self.window_groups@.dom().contains(q) implies self.window_groups@[q].wf()
                && self.window_groups@[q].spec_pid() == q by {
                if q != pid {
                    assert(groups0.dom().contains(q));
                }
            }
        }
        affected
    }
}

/// A recorded window leaves the group's units and pid as they were.
proof fn lemma_window_added<S, M>(g: WindowGroup<S, M>, old: WindowGroup<S, M>, ws: WakeSignals, w: Map<Seq<char>, Window>)
    requires
        exists|mid: WindowGroup<S, M>|
            mid.spec_windows() == w && mid.spec_unit_paths() == old.spec_unit_paths()
                && mid.spec_tracker() == old.spec_tracker() && #[trigger] g.recomputed(&mid, &ws),
    ensures
        g.spec_unit_paths() == old.spec_unit_paths(),
        g.spec_windows() == w,
{
}

impl<S, M> Daemon<S, M> {
    /// A window appeared. Its process gets a window group when it has none
    /// (`comm` is the process's command), the group's units are refreshed
    /// from `related` (`None` when they could not be read), and the window
    /// is recorded. Returns the units whose votes may have changed (the
    /// group's old and new units, each once) and the policies to revert on
    /// units no group votes on any more.
    pub fn window_added(
        &mut self,
        window_id: String,
        pid: i32,
        minimized: bool,
        active: bool,
        comm: String,
        related: Option<Vec<UnitPath>>,
    ) -> (r: (Vec<UnitPath>, Vec<UnitRevert>))
        requires
            old(self).wf(),
        ensures
            final(self).wf(),
            final(self).same_but_group(old(self), pid),
            final(self).spec_groups().dom().contains(pid),
            distinct_paths(r.0@),
            reverts_of(old(self).spec_units(), final(self).spec_units(), r.1@),
            kept_applied(old(self).spec_units(), final(self).spec_units()),
            ({
                let had = old(self).spec_groups().dom().contains(pid);
                let base_windows = if had {
                    old(self).spec_groups()[pid].spec_windows()
                } else {
                    Map::<Seq<char>, Window>::empty()
                };
                let base_units = if had {
                    unit_set(old(self).spec_groups()[pid].spec_unit_paths())
                } else {
                    Set::<Seq<char>>::empty()
                };
                let base_load = if had {
                    old(self).spec_groups()[pid].spec_tracker().spec_load()
                } else {
                    Load::Busy
                };
                let g = final(self).spec_groups()[pid];
                &&& g.spec_windows() == base_windows.insert(
                    window_id@,
                    Window { minimized, active },
                )
                &&& g.spec_tier() == group_tier(g, old(self).spec_wake_signals())
                &&& g.spec_vote() == policy_of(g.spec_tier(), base_load)
                &&& !had ==> g.spec_comm() == comm@
                &&& unit_set(g.spec_unit_paths()) == match related {
                    Some(v) => unit_set(v@),
                    None => base_units,
                }
                &&& unit_set(r.0@) == base_units.union(unit_set(g.spec_unit_paths()))
            }),
    {
        let ghost groups0 = self.window_groups@;
        let ghost units0 = self.units.view();
        if !self.window_groups.contains_key(&pid) {
            let group = WindowGroup::new(comm, pid);
            proof {
                lemma_add_group(listing(groups0), units0, pid);
                assert(unit_set(group.spec_unit_paths()) =~= Set::<Seq<char>>::empty());
            }
            self.window_groups.insert(pid, group);
            proof {
                assert(listing(self.window_groups@) =~= listing(groups0).insert(pid, Set::<Seq<char>>::empty()));
                assert forall|q: i32| #[trigger] self.window_groups@.dom().contains(q) implies self.window_groups@[q].wf()
                    && self.window_groups@[q].spec_pid() == q by {
                    if q != pid {
                        assert(groups0.dom().contains(q));
                    }
                }
            }
        }
        let ghost groups1 = self.window_groups@;
        let (affected, reverts) = self.link_group_to_units(pid, related);
        let ghost groups2 = self.window_groups@;
        let ghost g2 = groups2[pid];
        let mut group = match self.window_groups.remove(&pid) {
            Some(g) => g,
            None => {
                assert(false);
                return (affected, reverts);
            },
        };
        group.window_added(window_id, minimized, active, &self.wake_signals);
        proof {
            lemma_window_added(group, g2, self.wake_signals, g2.spec_windows().insert(window_id@, Window { minimized, active }));
            lemma_same_listing(groups2, pid, group);
        }
        self.window_groups.insert(pid, group);
        proof {
            assert(self.window_groups@ =~= groups2.insert(pid, group));
            assert forall|q: i32| #[trigger] self.window_groups@.dom().contains(q) implies self.window_groups@[q].wf()
                && self.window_groups@[q].spec_pid() == q by {
                if q != pid {
                    assert(groups2.dom().contains(q));
                }
            }
            let had = groups0.dom().contains(pid);
            let base_units = if had {
                unit_set(groups0[pid].spec_unit_paths())
            } else {
                Set::<Seq<char>>::empty()
            };
            assert(unit_set(groups1[pid].spec_unit_paths()) =~= base_units);
            assert(unit_set(affected@) =~= base_units.union(unit_set(group.spec_unit_paths())));
        }
        (affected, reverts)
    }

    /// A window went away. A group left with no window is dropped and
    /// leaves its units. Returns the units whose votes may have changed
    /// (the group's units) and the policies to revert on units no group
    /// votes on any more.
    pub fn window_removed(&mut self, window_id: &str, pid: i32) -> (r: (Vec<UnitPath>, Vec<UnitRevert>))
        requires
            old(self).wf(),
        ensures
            final(self).wf(),
            final(self).same_but_group(old(self), pid),
            distinct_paths(r.0@),
            reverts_of(old(self).spec_units(), final(self).spec_units(), r.1@),
            kept_applied(old(self).spec_units(), final(self).spec_units()),
            !old(self).spec_groups().dom().contains(pid) ==> *final(self) == *old(self) && r.0@.len()
                == 0 && r.1@.len() == 0,
            old(self).spec_groups().dom().contains(pid) ==> {
                let g = old(self).spec_groups()[pid];
                let windows = g.spec_windows().remove(window_id@);
                &&& unit_set(r.0@) == unit_set(g.spec_unit_paths())
                &&& windows.dom().len() != 0 ==> {
                    let h = final(self).spec_groups()[pid];
                    &&& final(self).spec_groups().dom().contains(pid)
                    &&& h.spec_windows() == windows
                    &&& h.spec_unit_paths() == g.spec_unit_paths()
                    &&& h.spec_tier() == group_tier(h, old(self).spec_wake_signals())
                    &&& h.spec_vote() == policy_of(h.spec_tier(), g.spec_tracker().spec_load())
                    &&& final(self).spec_units() == old(self).spec_units()
                }
                &&& windows.dom().len() == 0 ==> !final(self).spec_groups().dom().contains(pid)
            },
    {
        let ghost groups0 = self.window_groups@;
        let ghost units0 = self.units.view();
        if !self.window_groups.contains_key(&pid) {
            return (Vec::new(), Vec::new());
        }
        let mut group = match self.window_groups.remove(&pid) {
            Some(g) => g,
            None => {
                assert(false);
                return (Vec::new(), Vec::new());
            },
        };
        let ghost g0 = group;
        group.window_removed(window_id, &self.wake_signals);
        let mut unit_paths: Vec<UnitPath> = Vec::new();
        add_unique(&mut unit_paths, group.unit_paths());
        proof {
            assert(unit_set(Seq::<UnitPath>::empty()) =~= Set::<Seq<char>>::empty());
        }
        if group.has_windows() {
            proof {
                lemma_window_added(group, g0, self.wake_signals, g0.spec_windows().remove(window_id@));
                lemma_same_listing(groups0, pid, group);
                assert(unit_set(unit_paths@) =~= unit_set(g0.spec_unit_paths()));
            }
            self.window_groups.insert(pid, group);
            proof {
                assert(self.window_groups@ =~= groups0.insert(pid, group));
                assert forall|q: i32| #[trigger] self.window_groups@.dom().contains(q) implies self.window_groups@[q].wf()
                    && self.window_groups@[q].spec_pid() == q by {
                    if q != pid {
                        assert(groups0.dom().contains(q));
                    }
                }
            }
            return (unit_paths, Vec::new());
        }
        let ghost ws0 = self.wake_signals;
        let ghost confirm0 = self.cpu_load_polling_config;
        let ghost router0 = self.policy_router;
        let ghost l0 = listing(groups0);
        let ghost mut t: Set<Seq<char>> = unit_set(unit_paths@);
        proof {
            assert(unit_set(unit_paths@) =~= unit_set(g0.spec_unit_paths()));
            assert(l0.insert(pid, t) =~= l0);
        }
        let mut reverts: Vec<UnitRevert> = Vec::new();
        let mut i: usize = 0;
        while i < unit_paths.len()
            invariant
                i <= unit_paths@.len(),
                self.units.wf(),
                self.window_groups@ == groups0.remove(pid),
                self.wake_signals == ws0,
                self.cpu_load_polling_config == confirm0,
                self.policy_router == router0,
                forall|q: i32| #[trigger] groups0.dom().contains(q) ==> groups0[q].wf() && groups0[q].spec_pid() == q,
                l0 == listing(groups0),
                l0.dom().contains(pid),
                consistent(l0.insert(pid, t), self.units.view()),
                t.subset_of(unit_set(unit_paths@)),
                forall|j: int| 0 <= j < i ==> !t.contains(#[trigger] unit_paths@[j]@),
                forall|u: Seq<char>| #[trigger] self.units.view().dom().contains(u) ==> units0.dom().contains(u)
                    && self.units.view()[u].name == units0[u].name
                    && self.units.view()[u].applied_policy == units0[u].applied_policy,
                forall|k: int| 0 <= k < reverts@.len() ==> {
                    let u = (#[trigger] reverts@[k]).unit_path@;
                    &&& units0.dom().contains(u)
                    &&& !self.units.view().dom().contains(u)
                    &&& units0[u].applied_policy == Some(reverts@[k].policy)
                    &&& units0[u].name == reverts@[k].unit_name
                },
                forall|u: Seq<char>|
                    #[trigger] units0.dom().contains(u) && !self.units.view().dom().contains(u)
                        && units0[u].applied_policy is Some ==> exists|k: int|
                        0 <= k < reverts@.len() && (#[trigger] reverts@[k]).unit_path@ == u,
            decreases unit_paths@.len() - i,
        {
            let p = &unit_paths[i];
            let ghost before = self.units.view();
            let rv = leave_unit(&mut self.units, p, pid);
            proof {
                lemma_leave(l0.insert(pid, t), before, self.units.view(), p@, pid);
                assert(l0.insert(pid, t).insert(pid, l0.insert(pid, t)[pid].remove(p@)) =~= l0.insert(pid, t.remove(p@)));
                t = t.remove(p@);
            }
            let ghost old_rev = reverts@;
            match rv {
                Some(rv) => {
                    reverts.push(rv);
                },
                None => {},
            }
            proof {
                assert forall|k: int| 0 <= k < old_rev.len() implies reverts@[k] == old_rev[k] by {}
                assert forall|u: Seq<char>|
                    #[trigger] units0.dom().contains(u) && !self.units.view().dom().contains(u)
                        && units0[u].applied_policy is Some implies exists|k: int|
                        0 <= k < reverts@.len() && (#[trigger] reverts@[k]).unit_path@ == u by {
                    if before.dom().contains(u) {
                        assert(u == p@);
                        assert(reverts@[reverts@.len() - 1].unit_path@ == u);
                    } else {
                        let k = choose|k: int| 0 <= k < old_rev.len() && (#[trigger] old_rev[k]).unit_path@ == u;
                        assert(reverts@[k] == old_rev[k]);
                    }
                }
            }
            i = i + 1;
        }
        proof {
            assert forall|x: Seq<char>| !t.contains(x) by {
                if t.contains(x) {
                    let j = choose|j: int| 0 <= j < unit_paths@.len() && (#[trigger] unit_paths@[j])@ == x;
                }
            }
            assert(t =~= Set::<Seq<char>>::empty());
            lemma_remove_group(l0.insert(pid, t), self.units.view(), pid);
            assert(l0.insert(pid, t).remove(pid) =~= listing(groups0.remove(pid)));
            assert forall|q: i32| #[trigger] self.window_groups@.dom().contains(q) implies self.window_groups@[q].wf()
                && self.window_groups@[q].spec_pid() == q by {
                assert(groups0.dom().contains(q));
            }
            assert(unit_set(unit_paths@) =~= unit_set(g0.spec_unit_paths()));
        }
        (unit_paths, reverts)
    }
}

/// The units of the groups whose vote changed, as a set.
pub open spec fn changed_vote_units<S, M>(
    old: Map<i32, WindowGroup<S, M>>,
    new: Map<i32, WindowGroup<S, M>>,
    pids: Set<i32>,
) -> Set<Seq<char>> {
    Set::new(
        |t: Seq<char>|
            exists|p: i32|
                #![trigger pids.contains(p), unit_set(old[p].spec_unit_paths()).contains(t)]
                pids.contains(p) && new[p].spec_vote() != old[p].spec_vote() && unit_set(
                    old[p].spec_unit_paths(),
                ).contains(t),
    )
}

impl<S, M> Daemon<S, M> {
    /// Recomputes every group's vote from the current wake signals. Returns
    /// the units of the groups whose vote changed, each once.
    fn recompute_wake_votes(&mut self) -> (r: Vec<UnitPath>)
        requires
            old(self).wf(),
        ensures
            final(self).wf(),
            final(self).spec_units() == old(self).spec_units(),
            final(self).spec_wake_signals() == old(self).spec_wake_signals(),
            final(self).spec_confirm() == old(self).spec_confirm(),
            final(self).spec_router() == old(self).spec_router(),
            final(self).spec_groups().dom() == old(self).spec_groups().dom(),
            forall|p: i32|
                #[trigger] old(self).spec_groups().dom().contains(p) ==> final(self).spec_groups()[p].recomputed(
                    &old(self).spec_groups()[p],
                    &old(self).spec_wake_signals(),
                ),
            distinct_paths(r@),
            unit_set(r@) == changed_vote_units(
                old(self).spec_groups(),
                final(self).spec_groups(),
                old(self).spec_groups().dom(),
            ),
    {
        let ghost groups0 = self.window_groups@;
        let ghost units0 = self.units.view();
        let ghost ws0 = self.wake_signals;
        let ghost confirm0 = self.cpu_load_polling_config;
        let ghost router0 = self.policy_router;
        let pids = pid_keys(&self.window_groups);
        let mut affected: Vec<UnitPath> = Vec::new();
        let mut i: usize = 0;
        proof {
            assert(unit_set(affected@) =~= Set::<Seq<char>>::empty());
            assert(changed_vote_units(groups0, self.window_groups@, pids@.take(0).to_set()) =~= Set::<Seq<char>>::empty());
        }
        while i < pids.len()
            invariant
                i <= pids@.len(),
                pids@.no_duplicates(),
                pids@.to_set() == groups0.dom(),
                self.units.wf(),
                self.window_groups@.dom() == groups0.dom(),
                self.units.view() == units0,
                self.wake_signals == ws0,
                self.cpu_load_polling_config == confirm0,
                self.policy_router == router0,
                forall|q: i32| #[trigger] groups0.dom().contains(q) ==> groups0[q].wf() && groups0[q].spec_pid() == q,
                forall|q: i32| #[trigger] self.window_groups@.dom().contains(q) ==> self.window_groups@[q].wf()
                    && self.window_groups@[q].spec_pid() == q,
                listing(self.window_groups@) == listing(groups0),
                consistent(listing(groups0), self.units.view()),
                forall|j: int| 0 <= j < i ==> #[trigger] self.window_groups@[pids@[j]].recomputed(&groups0[pids@[j]], &self.wake_signals),
                forall|j: int| i <= j < pids@.len() ==> #[trigger] self.window_groups@[pids@[j]] == groups0[pids@[j]],
                distinct_paths(affected@),
                unit_set(affected@) == changed_vote_units(groups0, self.window_groups@, pids@.take(i as int).to_set()),
            decreases pids@.len() - i,
        {
            let pid = pids[i];
            let ghost cur = self.window_groups@;
            proof {
                assert(groups0.dom().contains(pid)) by {
                    assert(pids@.to_set().contains(pid));
                }
            }
            let mut group = match self.window_groups.remove(&pid) {
                Some(g) => g,
                None => {
                    assert(false);
                    return affected;
                },
            };
            let before = group.policy_vote();
            group.recompute_vote(&self.wake_signals);
            let changed = group.policy_vote() != before;
            if changed {
                add_unique(&mut affected, group.unit_paths());
            }
            proof {
                lemma_same_listing(cur, pid, group);
            }
            self.window_groups.insert(pid, group);
            proof {
                let now = self.window_groups@;
                assert(now =~= cur.insert(pid, group));
                assert(cur[pid] == groups0[pid]);
                assert forall|j: int| 0 <= j < i + 1 implies #[trigger] now[pids@[j]].recomputed(&groups0[pids@[j]], &self.wake_signals) by {
                    if j < i {
                        assert(pids@[j] != pid);
                    }
                }
                assert forall|j: int| i + 1 <= j < pids@.len() implies #[trigger] now[pids@[j]] == groups0[pids@[j]] by {
                    assert(pids@[j] != pid);
                }
                assert forall|q: i32| #[trigger] now.dom().contains(q) implies now[q].wf() && now[q].spec_pid() == q by {
                    if q != pid {
                        assert(cur.dom().contains(q));
                    }
                }
                let done0 = pids@.take(i as int).to_set();
                let done1 = pids@.take(i + 1).to_set();
                assert(done1 =~= done0.insert(pid)) by {
                    let s1 = pids@.take(i + 1);
                    let s0 = pids@.take(i as int);
                    assert forall|x: i32| done1.contains(x) <==> done0.insert(pid).contains(x) by {
                        if s1.contains(x) {
                            let j = choose|j: int| 0 <= j < s1.len() && s1[j] == x;
                            if j < i {
                                assert(s0[j] == x);
                            }
                        }
                        if s0.contains(x) {
                            let j = choose|j: int| 0 <= j < s0.len() && s0[j] == x;
                            assert(s1[j] == x);
                        }
                        if x == pid {
                            assert(s1[i as int] == x);
                        }
                    }
                }
                assert(!done0.contains(pid)) by {
                    if done0.contains(pid) {
                        let j = choose|j: int| 0 <= j < i && pids@.take(i as int)[j] == pid;
                        assert(pids@[j] == pids@[i as int]);
                    }
                }
                assert forall|t: Seq<char>| #[trigger] unit_set(affected@).contains(t) <==> changed_vote_units(groups0, now, done1).contains(t) by {
                    if changed_vote_units(groups0, now, done1).contains(t) {
                        let p = choose|p: i32|
                            #![trigger done1.contains(p), unit_set(groups0[p].spec_unit_paths()).contains(t)]
                            done1.contains(p) && now[p].spec_vote() != groups0[p].spec_vote() && unit_set(
                                groups0[p].spec_unit_paths(),
                            ).contains(t);
                        if p != pid {
                            assert(done0.contains(p));
                            assert(now[p] == cur[p]);
                            assert(changed_vote_units(groups0, cur, done0).contains(t));
                        }
                    }
                    if unit_set(affected@).contains(t) && !changed_vote_units(groups0, cur, done0).contains(t) {
                        assert(done1.contains(pid));
                        assert(unit_set(groups0[pid].spec_unit_paths()).contains(t));
                    }
                    if changed_vote_units(groups0, cur, done0).contains(t) {
                        let p = choose|p: i32|
                            #![trigger done0.contains(p), unit_set(groups0[p].spec_unit_paths()).contains(t)]
                            done0.contains(p) && cur[p].spec_vote() != groups0[p].spec_vote() && unit_set(
                                groups0[p].spec_unit_paths(),
                            ).contains(t);
                        assert(p != pid);
                        assert(now[p] == cur[p]);
                        assert(done1.contains(p));
                    }
                }
                assert(unit_set(affected@) =~= changed_vote_units(groups0, now, done1));
            }
            i = i + 1;
        }
        proof {
            assert(pids@.take(pids@.len() as int) =~= pids@);
            assert(self.window_groups@.dom() =~= groups0.dom());
            assert forall|p: i32| #[trigger] groups0.dom().contains(p) implies self.window_groups@[p].recomputed(&groups0[p], &self.wake_signals) by {
                assert(pids@.to_set().contains(p));
                let j = choose|j: int| 0 <= j < pids@.len() && pids@[j] == p;
            }
        }
        affected
    }
}

/// The vote of the unit `u`: the most awake vote among the groups that
/// vote on it; `None` for a unit not in the ledger.
pub open spec fn is_unit_vote<S, M>(
    groups: Map<i32, WindowGroup<S, M>>,
    units: Map<Seq<char>, ManagedUnit>,
    u: Seq<char>,
    r: Option<Policy>,
) -> bool {
    match r {
        None => !units.dom().contains(u),
        Some(v) => {
            &&& units.dom().contains(u)
            &&& exists|p: i32|
                #[trigger] units[u].voters@.contains(p) && groups.dom().contains(p)
                    && groups[p].spec_vote() == v
            &&& forall|p: i32|
                #[trigger] units[u].voters@.contains(p) && groups.dom().contains(p) ==> wakefulness(
                    groups[p].spec_vote(),
                ) <= wakefulness(v)
        },
    }
}

/// A unit has one vote: two most awake votes of its voters are the same
/// policy.
pub proof fn lemma_unit_vote_unique<S, M>(
    groups: Map<i32, WindowGroup<S, M>>,
    units: Map<Seq<char>, ManagedUnit>,
    u: Seq<char>,
    a: Policy,
    b: Policy,
)
    requires
        is_unit_vote(groups, units, u, Some(a)),
        is_unit_vote(groups, units, u, Some(b)),
    ensures
        a == b,
{
    let pa = choose|p: i32|
        #[trigger] units[u].voters@.contains(p) && groups.dom().contains(p) && groups[p].spec_vote() == a;
    let pb = choose|p: i32|
        #[trigger] units[u].voters@.contains(p) && groups.dom().contains(p) && groups[p].spec_vote() == b;
    assert(wakefulness(a) <= wakefulness(b));
    assert(wakefulness(b) <= wakefulness(a));
}

impl<S, M> Daemon<S, M> {
    /// The inhibiting apps changed; every vote is recomputed. Returns the
    /// units of the groups whose vote changed, each once.
    pub fn inhibited_apps_changed(&mut self, apps: Vec<String>) -> (r: Vec<UnitPath>)
        requires
            old(self).wf(),
        ensures
            final(self).wf(),
            final(self).spec_wake_signals().wf(),
            forall|t: Seq<char>| has_text(final(self).spec_wake_signals().powerdevil_apps@, t) <==> has_text(apps@, t),
            final(self).spec_wake_signals().mpris_units@ == old(self).spec_wake_signals().mpris_units@,
            final(self).spec_units() == old(self).spec_units(),
            final(self).spec_confirm() == old(self).spec_confirm(),
            final(self).spec_router() == old(self).spec_router(),
            final(self).spec_groups().dom() == old(self).spec_groups().dom(),
            forall|p: i32|
                #[trigger] old(self).spec_groups().dom().contains(p) ==> final(self).spec_groups()[p].recomputed(
                    &old(self).spec_groups()[p],
                    &final(self).spec_wake_signals(),
                ),
            distinct_paths(r@),
            unit_set(r@) == changed_vote_units(
                old(self).spec_groups(),
                final(self).spec_groups(),
                old(self).spec_groups().dom(),
            ),
    {
        self.wake_signals.powerdevil_apps = unique_texts(apps);
        self.recompute_wake_votes()
    }

    /// The units of the playing media players changed; every vote is
    /// recomputed. Returns the units of the groups whose vote changed,
    /// each once.
    pub fn media_units_changed(&mut self, unit_paths: Vec<UnitPath>) -> (r: Vec<UnitPath>)
        requires
            old(self).wf(),
        ensures
            final(self).wf(),
            final(self).spec_wake_signals().wf(),
            unit_set(final(self).spec_wake_signals().mpris_units@) == unit_set(unit_paths@),
            final(self).spec_wake_signals().powerdevil_apps@ == old(self).spec_wake_signals().powerdevil_apps@,
            final(self).spec_units() == old(self).spec_units(),
            final(self).spec_confirm() == old(self).spec_confirm(),
            final(self).spec_router() == old(self).spec_router(),
            final(self).spec_groups().dom() == old(self).spec_groups().dom(),
            forall|p: i32|
                #[trigger] old(self).spec_groups().dom().contains(p) ==> final(self).spec_groups()[p].recomputed(
                    &old(self).spec_groups()[p],
                    &final(self).spec_wake_signals(),
                ),
            distinct_paths(r@),
            unit_set(r@) == changed_vote_units(
                old(self).spec_groups(),
                final(self).spec_groups(),
                old(self).spec_groups().dom(),
            ),
    {
        let mut players: Vec<UnitPath> = Vec::new();
        add_unique(&mut players, &unit_paths);
        proof {
            assert(unit_set(Seq::<UnitPath>::empty()) =~= Set::<Seq<char>>::empty());
        }
        self.wake_signals.mpris_units = players;
        self.recompute_wake_votes()
    }

    /// The group of a pid.
    pub fn group(&self, pid: i32) -> (r: Option<&WindowGroup<S, M>>)
        requires
            self.wf(),
        ensures
            match r {
                Some(g) => self.spec_groups().dom().contains(pid) && *g == self.spec_groups()[pid],
                None => !self.spec_groups().dom().contains(pid),
            },
    {
        self.window_groups.get(&pid)
    }

    /// The pids of the groups polled for CPU load (those not in the
    /// performance tier), each once.
    pub fn polled_groups(&self) -> (r: Vec<i32>)
        requires
            self.wf(),
        ensures
            r@.no_duplicates(),
            forall|p: i32|
                r@.contains(p) <==> (self.spec_groups().dom().contains(p) && #[trigger] self.spec_groups()[p].spec_tier()
                    != Tier::Performance),
    {
        let pids = pid_keys(&self.window_groups);
        let mut r: Vec<i32> = Vec::new();
        let mut i: usize = 0;
        while i < pids.len()
            invariant
                i <= pids@.len(),
                self.wf(),
                pids@.no_duplicates(),
                pids@.to_set() == self.spec_groups().dom(),
                r@.no_duplicates(),
                forall|p: i32|
                    r@.contains(p) <==> (pids@.take(i as int).contains(p) && #[trigger] self.spec_groups()[p].spec_tier()
                        != Tier::Performance),
            decreases pids@.len() - i,
        {
            let pid = pids[i];
            proof {
                assert(pids@.to_set().contains(pid));
                assert(pids@.take(i + 1) =~= pids@.take(i as int).push(pid));
                assert(!pids@.take(i as int).contains(pid)) by {
                    if pids@.take(i as int).contains(pid) {
                        let j = choose|j: int| 0 <= j < i && pids@.take(i as int)[j] == pid;
                        assert(pids@[j] == pids@[i as int]);
                    }
                }
            }
            let polled = match self.window_groups.get(&pid) {
                Some(g) => g.is_polled(),
                None => false,
            };
            let ghost old_r = r@;
            if polled {
                r.push(pid);
            }
            proof {
                assert forall|p: i32|
                    r@.contains(p) <==> (pids@.take(i + 1).contains(p) && #[trigger] self.spec_groups()[p].spec_tier()
                        != Tier::Performance) by {
                    if r@.contains(p) && p != pid {
                        let j = choose|j: int| 0 <= j < r@.len() && r@[j] == p;
                        assert(old_r[j] == p);
                        assert(old_r.contains(p));
                    }
                    if old_r.contains(p) {
                        let j = choose|j: int| 0 <= j < old_r.len() && old_r[j] == p;
                        assert(r@[j] == p);
                    }
                    if pids@.take(i + 1).contains(p) && p != pid {
                        let j = choose|j: int| 0 <= j < i + 1 && #[trigger] pids@.take(i + 1)[j] == p;
                        assert(pids@.take(i as int)[j] == p);
                    }
                    if p == pid {
                        assert(pids@.take(i + 1)[i as int] == p);
                        assert(polled == (self.spec_groups()[pid].spec_tier() != Tier::Performance));
                        assert(!old_r.contains(pid));
                        if polled {
                            assert(r@[r@.len() - 1] == p);
                        } else {
                            assert(r@ == old_r);
                        }
                    }
                    if pids@.take(i as int).contains(p) {
                        let j = choose|j: int| 0 <= j < i && pids@.take(i as int)[j] == p;
                        assert(pids@.take(i + 1)[j] == p);
                    }
                }
            }
            i = i + 1;
        }
        proof {
            assert(pids@.take(pids@.len() as int) =~= pids@);
        }
        r
    }

    /// Some group is polled for CPU load: the CPU tick only runs then.
    pub fn has_polled_groups(&self) -> (r: bool)
        requires
            self.wf(),
        ensures
            r == exists|p: i32|
                self.spec_groups().dom().contains(p) && #[trigger] self.spec_groups()[p].spec_tier()
                    != Tier::Performance,
    {
        let polled = self.polled_groups();
        proof {
            if exists|p: i32|
                self.spec_groups().dom().contains(p) && #[trigger] self.spec_groups()[p].spec_tier()
                    != Tier::Performance {
                let p = choose|p: i32|
                    self.spec_groups().dom().contains(p) && #[trigger] self.spec_groups()[p].spec_tier()
                        != Tier::Performance;
                assert(polled@.contains(p));
            }
            if polled@.len() != 0 {
                let p = polled@[0];
                assert(polled@.contains(p));
                assert(self.spec_groups().dom().contains(p) && self.spec_groups()[p].spec_tier()
                    != Tier::Performance);
            }
        }
        polled.len() != 0
    }

    /// Feeds a CPU sample of the group `pid` (and the reading derived from
    /// it) to its load tracker; the vote is recomputed when the load
    /// changed. Returns the new load, if it changed.
    pub fn cpu_usage_tick(&mut self, pid: i32, sample: S, reading: Option<TickReading<M>>) -> (r: Option<Load>)
        requires
            old(self).wf(),
        ensures
            final(self).wf(),
            final(self).same_but_group(old(self), pid),
            final(self).spec_units() == old(self).spec_units(),
            !old(self).spec_groups().dom().contains(pid) ==> *final(self) == *old(self) && r is None,
            old(self).spec_groups().dom().contains(pid) ==> {
                let g = old(self).spec_groups()[pid];
                let h = final(self).spec_groups()[pid];
                &&& final(self).spec_groups().dom().contains(pid)
                &&& h.spec_windows() == g.spec_windows()
                &&& h.spec_unit_paths() == g.spec_unit_paths()
                &&& r is None ==> h.spec_tier() == g.spec_tier() && h.spec_vote() == g.spec_vote()
                &&& r matches Some(l) ==> h.spec_tracker().spec_load() == l && h.spec_vote()
                    == policy_of(h.spec_tier(), l)
                &&& h.ticked(
                    &g,
                    &old(self).spec_wake_signals(),
                    sample,
                    reading,
                    old(self).spec_confirm(),
                    r,
                )
            },
    {
        let ghost groups0 = self.window_groups@;
        if !self.window_groups.contains_key(&pid) {
            return None;
        }
        let mut group = match self.window_groups.remove(&pid) {
            Some(g) => g,
            None => {
                assert(false);
                return None;
            },
        };
        let changed = group.on_cpu_usage_tick(&self.wake_signals, sample, reading, &self.cpu_load_polling_config);
        proof {
            lemma_same_listing(groups0, pid, group);
        }
        self.window_groups.insert(pid, group);
        proof {
            assert(self.window_groups@ =~= groups0.insert(pid, group));
            assert forall|q: i32| #[trigger] self.window_groups@.dom().contains(q) implies self.window_groups@[q].wf()
                && self.window_groups@[q].spec_pid() == q by {
                if q != pid {
                    assert(groups0.dom().contains(q));
                }
            }
        }
        changed
    }
}

impl<S, M> Daemon<S, M> {
    /// The vote of a unit: the most awake vote among the groups that vote
    /// on it; `None` for a unit not in the ledger.
    pub fn unit_vote(&self, unit_path: &UnitPath) -> (r: Option<Policy>)
        requires
            self.wf(),
        ensures
            is_unit_vote(self.spec_groups(), self.spec_units(), unit_path@, r),
    {
        let unit = match self.units.get(unit_path.as_str()) {
            Some(unit) => unit,
            None => {
                return None;
            },
        };
        let ghost u = unit_path@;
        let ghost groups = self.spec_groups();
        let pids = pid_keys(&self.window_groups);
        let mut votes: Vec<Policy> = Vec::new();
        let mut i: usize = 0;
        while i < pids.len()
            invariant
                i <= pids@.len(),
                self.wf(),
                groups == self.spec_groups(),
                pids@.to_set() == groups.dom(),
                *unit == self.spec_units()[u],
                forall|k: int|
                    0 <= k < votes@.len() ==> exists|j: int|
                        0 <= j < i && unit.voters@.contains(#[trigger] pids@[j]) && groups[pids@[j]].spec_vote()
                            == #[trigger] votes@[k],
                forall|j: int|
                    0 <= j < i && unit.voters@.contains(#[trigger] pids@[j]) ==> votes@.contains(
                        groups[pids@[j]].spec_vote(),
                    ),
            decreases pids@.len() - i,
        {
            let pid = pids[i];
            let ghost old_votes = votes@;
            if unit.voters.contains(&pid) {
                match self.window_groups.get(&pid) {
                    Some(g) => {
                        votes.push(g.policy_vote());
                    },
                    None => {
                        proof {
                            assert(pids@.to_set().contains(pid));
                        }
                    },
                }
            }
            proof {
                assert(pids@.to_set().contains(pid));
                assert forall|k: int| 0 <= k < votes@.len() implies exists|j: int|
                    0 <= j < i + 1 && unit.voters@.contains(#[trigger] pids@[j]) && groups[pids@[j]].spec_vote()
                        == #[trigger] votes@[k] by {
                    if k < old_votes.len() {
                        assert(votes@[k] == old_votes[k]);
                    } else {
                        assert(pids@[i as int] == pid);
                    }
                }
                assert forall|j: int| 0 <= j < i + 1 && unit.voters@.contains(#[trigger] pids@[j]) implies votes@.contains(
                    groups[pids@[j]].spec_vote(),
                ) by {
                    if j < i {
                        let k = choose|k: int| 0 <= k < old_votes.len() && old_votes[k] == groups[pids@[j]].spec_vote();
                        assert(votes@[k] == old_votes[k]);
                    } else {
                        assert(votes@[votes@.len() - 1] == groups[pid].spec_vote());
                    }
                }
            }
            i = i + 1;
        }
        let r = max_vote(votes.as_slice());
        proof {
            let units = self.spec_units();
            let listed = listing(groups);
            assert(!units[u].voters@.is_empty());
            let p0 = choose|p: i32| units[u].voters@.contains(p);
            assert(units[u].voters@.contains(p0));
            assert(listed.dom().contains(p0) && listed[p0].contains(u));
            assert(groups.dom().contains(p0));
            assert(pids@.to_set().contains(p0));
            let j0 = choose|j: int| 0 <= j < pids@.len() && pids@[j] == p0;
            assert(unit.voters@.contains(pids@[j0]));
            assert(votes@.contains(groups[p0].spec_vote()));
            let v = r->0;
            let k = choose|k: int| 0 <= k < votes@.len() && votes@[k] == v;
            let j = choose|j: int|
                0 <= j < pids@.len() && unit.voters@.contains(#[trigger] pids@[j]) && groups[pids@[j]].spec_vote()
                    == votes@[k];
            assert(pids@.to_set().contains(pids@[j]));
            assert(units[u].voters@.contains(pids@[j]) && groups.dom().contains(pids@[j])
                && groups[pids@[j]].spec_vote() == v);
            assert forall|p: i32|
                #[trigger] units[u].voters@.contains(p) && groups.dom().contains(p) implies wakefulness(
                groups[p].spec_vote(),
            ) <= wakefulness(v) by {
                assert(pids@.to_set().contains(p));
                let jj = choose|jj: int| 0 <= jj < pids@.len() && pids@[jj] == p;
                assert(unit.voters@.contains(pids@[jj]));
                let kk = choose|kk: int| 0 <= kk < votes@.len() && votes@[kk] == groups[p].spec_vote();
            }
        }
        r
    }

    /// The move the unit's policy needs: from the policy applied to its
    /// vote, when they differ; `None` for a unit not in the ledger or one
    /// whose vote is applied.
    pub fn plan_reconcile(&self, unit_path: &UnitPath) -> (r: Option<PolicyTransition<Policy>>)
        requires
            self.wf(),
        ensures
            match r {
                Some(t) => {
                    let unit = self.spec_units()[unit_path@];
                    &&& self.spec_units().dom().contains(unit_path@)
                    &&& is_unit_vote(self.spec_groups(), self.spec_units(), unit_path@, Some(t.to))
                    &&& needs_transition(unit.applied_policy, Some(t.to))
                    &&& t.from == unit.applied_policy
                    &&& t.applied == unit.applied_policy
                    &&& t.stage == if t.from is Some {
                        TransitionStage::Reverting
                    } else {
                        TransitionStage::Applying
                    }
                },
                None => !self.spec_units().dom().contains(unit_path@) || exists|v: Policy|
                    is_unit_vote(self.spec_groups(), self.spec_units(), unit_path@, Some(v))
                        && self.spec_units()[unit_path@].applied_policy == Some(v),
            },
    {
        let vote = match self.unit_vote(unit_path) {
            Some(v) => v,
            None => {
                return None;
            },
        };
        let applied = match self.units.get(unit_path.as_str()) {
            Some(unit) => unit.applied_policy,
            None => {
                return None;
            },
        };
        let same = match applied {
            Some(a) => a == vote,
            None => false,
        };
        if same {
            return None;
        }
        Some(PolicyTransition::start(applied, vote))
    }

    /// Records the policy applied to a unit after a transition; a unit no
    /// longer in the ledger is left out.
    pub fn record_applied(&mut self, unit_path: &UnitPath, applied: Option<Policy>)
        requires
            old(self).wf(),
        ensures
            final(self).wf(),
            final(self).spec_groups() == old(self).spec_groups(),
            final(self).spec_wake_signals() == old(self).spec_wake_signals(),
            final(self).spec_confirm() == old(self).spec_confirm(),
            final(self).spec_router() == old(self).spec_router(),
            final(self).spec_units().dom() == old(self).spec_units().dom(),
            forall|k: Seq<char>|
                k != unit_path@ && #[trigger] old(self).spec_units().dom().contains(k) ==> final(self).spec_units()[k]
                    == old(self).spec_units()[k],
            old(self).spec_units().dom().contains(unit_path@) ==> {
                let a = old(self).spec_units()[unit_path@];
                let b = final(self).spec_units()[unit_path@];
                &&& b.voters@ == a.voters@
                &&& b.name == a.name
                &&& b.applied_policy == applied
            },
    {
        let ghost units0 = self.units.view();
        if !self.units.contains_key(unit_path.as_str()) {
            return;
        }
        let mut unit = match self.units.remove(unit_path.as_str()) {
            Some(unit) => unit,
            None => {
                assert(false);
                return;
            },
        };
        unit.applied_policy = applied;
        self.units.insert(unit_path.to_string(), unit);
        proof {
            assert(self.units.view().dom() =~= units0.dom());
            lemma_same_voters(listing(self.window_groups@), units0, self.units.view());
        }
    }
}

impl<S, M: Copy> Daemon<S, M> {
    /// A snapshot of every window group, each once.
    pub fn list_apps(&self) -> (r: Vec<AppSnapshot<M>>)
        requires
            self.wf(),
        ensures
            r@.len() == self.spec_groups().dom().len(),
            forall|i: int|
                0 <= i < r@.len() ==> {
                    let a = #[trigger] r@[i];
                    let g = self.spec_groups()[a.window_pid];
                    &&& self.spec_groups().dom().contains(a.window_pid)
                    &&& a.comm@ == g.spec_comm()
                    &&& a.policy == g.spec_vote()
                    &&& a.metrics == g.spec_tracker().spec_metrics()
                    &&& a.window_count == g.spec_windows().dom().len()
                },
            forall|i: int, j: int|
                0 <= i < r@.len() && 0 <= j < r@.len() && i != j ==> r@[i].window_pid != r@[j].window_pid,
    {
        let pids = pid_keys(&self.window_groups);
        let mut r: Vec<AppSnapshot<M>> = Vec::new();
        let mut i: usize = 0;
        while i < pids.len()
            invariant
                i <= pids@.len(),
                self.wf(),
                pids@.no_duplicates(),
                pids@.to_set() == self.spec_groups().dom(),
                r@.len() == i,
                forall|k: int| 0 <= k < i ==> (#[trigger] r@[k]).window_pid == pids@[k],
                forall|k: int|
                    0 <= k < i ==> {
                        let a = #[trigger] r@[k];
                        let g = self.spec_groups()[a.window_pid];
                        &&& self.spec_groups().dom().contains(a.window_pid)
                        &&& a.comm@ == g.spec_comm()
                        &&& a.policy == g.spec_vote()
                        &&& a.metrics == g.spec_tracker().spec_metrics()
                        &&& a.window_count == g.spec_windows().dom().len()
                    },
            decreases pids@.len() - i,
        {
            let pid = pids[i];
            proof {
                assert(pids@.to_set().contains(pid));
            }
            match self.window_groups.get(&pid) {
                Some(g) => {
                    r.push(AppSnapshot::new(g));
                },
                None => {
                    assert(false);
                },
            }
            i = i + 1;
        }
        proof {
            pids@.unique_seq_to_set();
        }
        r
    }
}

/// The usage counters of some units, summed.
pub open spec fn usage_sum(stats: Seq<(UnitPath, CpuStat)>) -> int
    decreases stats.len(),
{
    if stats.len() == 0 {
        0
    } else {
        usage_sum(stats.drop_last()) + stats.last().1.usage_usec
    }
}

/// The throttle counters of some units by unit path; a unit listed twice
/// keeps its last counter.
pub open spec fn stat_throttles(stats: Seq<(UnitPath, CpuStat)>) -> Map<Seq<char>, u64> {
    entries_map(stats.map_values(|e: (UnitPath, CpuStat)| (e.0@, e.1.throttled_usec)))
}

proof fn lemma_usage_sum_mono(stats: Seq<(UnitPath, CpuStat)>, i: int)
    requires
        0 <= i <= stats.len(),
    ensures
        usage_sum(stats.take(i)) <= usage_sum(stats),
    decreases stats.len(),
{
    if i < stats.len() {
        assert(stats.drop_last().take(i) =~= stats.take(i));
        lemma_usage_sum_mono(stats.drop_last(), i);
    } else {
        assert(stats.take(i) =~= stats);
    }
}

/// A sample of a group's units from their `cpu.stat` counters: usage
/// summed, throttling kept per unit. `cpu.stat` is subtree-inclusive, so a
/// unit nested in another unit of the set is counted twice.
pub fn sample_cpu(stats: Vec<(UnitPath, CpuStat)>) -> (r: CpuSample)
    requires
        usage_sum(stats@) <= u64::MAX,
    ensures
        r.wf(),
        r.spec_usage() == usage_sum(stats@),
        r.spec_throttle() == stat_throttles(stats@),
{
    let mut usage_usec: u64 = 0;
    let mut throttle_usecs: Vec<(UnitPath, u64)> = Vec::new();
    let mut i: usize = 0;
    while i < stats.len()
        invariant
            i <= stats@.len(),
            usage_sum(stats@) <= u64::MAX,
            usage_usec == usage_sum(stats@.take(i as int)),
            throttle_usecs@.len() == i,
            forall|j: int|
                0 <= j < i ==> (#[trigger] throttle_usecs@[j]).0@ == stats@[j].0@ && throttle_usecs@[j].1
                    == stats@[j].1.throttled_usec,
        decreases stats@.len() - i,
    {
        proof {
            assert(stats@.take(i + 1).drop_last() =~= stats@.take(i as int));
            lemma_usage_sum_mono(stats@, i + 1);
        }
        usage_usec = usage_usec + stats[i].1.usage_usec;
        throttle_usecs.push((stats[i].0.duplicate(), stats[i].1.throttled_usec));
        i = i + 1;
    }
    proof {
        assert(stats@.take(stats@.len() as int) =~= stats@);
        assert(throttle_usecs@.map_values(|p: (UnitPath, u64)| (p.0@, p.1)) =~= stats@.map_values(
            |e: (UnitPath, CpuStat)| (e.0@, e.1.throttled_usec),
        ));
    }
    CpuSample::now(usage_usec, throttle_usecs)
}
} // verus!
