//! The report of one tracked app, as the daemon sends it over D-Bus.
use crate::daemon::app_state::{load_name, tier_name, AppState, WindowState};
use crate::daemon::policy::policy_key_name;
use crate::daemon::service::texts;
use crate::text::{has_text, lex_lt, sort_distinct, strictly_sorted};
use vstd::prelude::*;

verus! {

/// One tracked window, as reported over D-Bus.
#[derive(Debug, Clone)]
pub struct WindowSnapshot {
    pub window_id: String,
    pub minimized: bool,
    pub active: bool,
}

/// One tracked app, as reported over D-Bus.
///
/// `load` is the raw tracker state; it does not select a policy on the
/// performance tier. `policy` is the last successfully applied policy, so it
/// stays behind the desired tier while a transition keeps failing, and is
/// empty when nothing has been applied yet. `metrics` is the CPU usage and
/// throttling of the last polled sample, `None` before the first one.
#[derive(Debug, Clone)]
pub struct AppSnapshot<M> {
    pub pid: i32,
    pub name: String,
    pub tier: String,
    pub load: String,
    pub policy: String,
    pub metrics: Option<M>,
    pub cgroups: Vec<String>,
    pub windows: Vec<WindowSnapshot>,
}

/// The windows of a snapshot are those of the table, each once, in
/// increasing order of their ids.
pub open spec fn windows_reported(w: Seq<WindowSnapshot>, table: Map<Seq<char>, WindowState>) -> bool {
    &&& w.len() == table.dom().len()
    &&& forall|i: int, j: int| 0 <= i < j < w.len() ==> lex_lt(w[i].window_id@, w[j].window_id@)
    &&& forall|i: int|
        0 <= i < w.len() ==> table.dom().contains((#[trigger] w[i]).window_id@) && table[w[i].window_id@]
            == (WindowState { minimized: w[i].minimized, active: w[i].active })
    &&& forall|k: Seq<char>|
        table.dom().contains(k) ==> exists|i: int| 0 <= i < w.len() && (#[trigger] w[i]).window_id@ == k
}

/// A copy of a list of strings.
pub fn clone_strings(v: &Vec<String>) -> (r: Vec<String>)
    ensures
        texts(r@) == texts(v@),
{
    let mut r: Vec<String> = Vec::new();
    let mut i: usize = 0;
    while i < v.len()
        invariant
            i <= v@.len(),
            r@.len() == i,
            forall|j: int| 0 <= j < i ==> r@[j]@ == v@[j]@,
        decreases v@.len() - i,
    {
        r.push(v[i].clone());
        i = i + 1;
    }
    assert(texts(r@) =~= texts(v@));
    r
}

impl<M: Copy> AppSnapshot<M> {
    /// Project one app's live state. Windows are sorted so repeated queries
    /// return a stable order.
    pub fn new<S>(pid: i32, app_state: &AppState<S, M>) -> (r: Self)
        requires
            app_state.windows.wf(),
        ensures
            r.pid == pid,
            r.name@ == app_state.name@,
            r.tier@ == tier_name(app_state.tier),
            r.load@ == load_name(app_state.load_tracker.load),
            r.policy@ == match app_state.applied {
                Some(k) => policy_key_name(k),
                None => Seq::<char>::empty(),
            },
            r.metrics == app_state.load_tracker.metrics,
            texts(r.cgroups@) == texts(app_state.cgroups@),
            windows_reported(r.windows@, app_state.windows.view()),
    {
        let ids = sort_distinct(app_state.windows.keys());
        let mut windows: Vec<WindowSnapshot> = Vec::new();
        let mut i: usize = 0;
        while i < ids.len()
            invariant
                i <= ids@.len(),
                app_state.windows.wf(),
                strictly_sorted(ids@),
                forall|t: Seq<char>| has_text(ids@, t) ==> app_state.windows.view().dom().contains(t),
                windows@.len() == i,
                forall|j: int| 0 <= j < i ==> (#[trigger] windows@[j]).window_id@ == ids@[j]@,
                forall|j: int|
                    0 <= j < i ==> app_state.windows.view()[(#[trigger] windows@[j]).window_id@]
                        == (WindowState {
                        minimized: windows@[j].minimized,
                        active: windows@[j].active,
                    }),
            decreases ids@.len() - i,
        {
            let id = &ids[i];
            assert(has_text(ids@, ids@[i as int]@));
            let w = match app_state.windows.get(id.as_str()) {
                Some(w) => *w,
                None => {
                    assert(false);
                    WindowState { minimized: false, active: false }
                },
            };
            windows.push(
                WindowSnapshot { window_id: id.clone(), minimized: w.minimized, active: w.active },
            );
            i = i + 1;
        }
        proof {
            let table = app_state.windows.view();
            let w = windows@;
            assert forall|k: Seq<char>| table.dom().contains(k) implies exists|i: int|
                0 <= i < w.len() && (#[trigger] w[i]).window_id@ == k by {
                assert(has_text(ids@, k));
                let j = choose|j: int| 0 <= j < ids@.len() && (#[trigger] ids@[j])@ == k;
                assert(w[j].window_id@ == k);
            }
            assert forall|a: int, b: int| 0 <= a < b < w.len() implies lex_lt(
                w[a].window_id@,
                w[b].window_id@,
            ) by {
                assert(w[a].window_id@ == ids@[a]@);
                assert(w[b].window_id@ == ids@[b]@);
            }
            assert forall|a: int| 0 <= a < w.len() implies table.dom().contains(
                (#[trigger] w[a]).window_id@,
            ) by {
                assert(w[a].window_id@ == ids@[a]@);
                assert(has_text(ids@, ids@[a]@));
            }
        }
        let policy = match app_state.applied {
            Some(key) => key.as_str().to_owned(),
            None => String::new(),
        };
        AppSnapshot {
            pid,
            name: app_state.name.clone(),
            tier: app_state.tier.as_str().to_owned(),
            load: app_state.load().as_str().to_owned(),
            policy,
            metrics: app_state.load_tracker.metrics,
            cgroups: clone_strings(&app_state.cgroups),
            windows,
        }
    }
}

} // verus!
