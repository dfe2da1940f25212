//! The per-app decisions of the tier layout's daemon: the tier an app gets
//! from its windows and wake signals, the bookkeeping of window events, and
//! when its effective policy must move.
use crate::daemon::app_state::{AppState, Tier, WindowState};
use crate::daemon::policies::{policy_key_for, Policies};
use crate::daemon::policy::PolicyKey;
use crate::daemon::transition::PolicyTransition;
use crate::text::str_eq;
use vstd::prelude::*;

verus! {

/// Focus or a hard keep-awake (inhibitor) means performance. MPRIS only
/// blocks nap; it never forces performance or clears the load state.
pub open spec fn next_tier(
    has_active_window: bool,
    has_unminimized_window: bool,
    inhibited: bool,
    media_playing: bool,
) -> Tier {
    if has_active_window || inhibited {
        Tier::Performance
    } else if has_unminimized_window || media_playing {
        Tier::Background
    } else {
        Tier::Nap
    }
}

/// Only focus or an inhibitor gives performance; without them, an
/// unminimized window or media playback gives background; with none of the
/// four the tier is nap. No input leaves the tier unknown.
pub proof fn lemma_next_tier_rules(
    has_active_window: bool,
    has_unminimized_window: bool,
    inhibited: bool,
    media_playing: bool,
)
    ensures
        (next_tier(has_active_window, has_unminimized_window, inhibited, media_playing)
            == Tier::Performance) <==> (has_active_window || inhibited),
        (next_tier(has_active_window, has_unminimized_window, inhibited, media_playing)
            == Tier::Background) <==> (!has_active_window && !inhibited && (has_unminimized_window
            || media_playing)),
        (next_tier(has_active_window, has_unminimized_window, inhibited, media_playing)
            == Tier::Nap) <==> (!has_active_window && !inhibited && !has_unminimized_window
            && !media_playing),
        next_tier(has_active_window, has_unminimized_window, inhibited, media_playing)
            != Tier::Unknown,
{
}

pub fn resolve_next_tier(
    has_active_window: bool,
    has_unminimized_window: bool,
    inhibited: bool,
    media_playing: bool,
) -> (r: Tier)
    ensures
        r == next_tier(has_active_window, has_unminimized_window, inhibited, media_playing),
{
    if has_active_window || inhibited {
        Tier::Performance
    } else if has_unminimized_window || media_playing {
        Tier::Background
    } else {
        Tier::Nap
    }
}

/// Some window of the table is active.
pub open spec fn any_active(windows: Map<Seq<char>, WindowState>) -> bool {
    exists|k: Seq<char>| windows.dom().contains(k) && (#[trigger] windows[k]).active
}

/// Some window of the table is not minimized.
pub open spec fn any_unminimized(windows: Map<Seq<char>, WindowState>) -> bool {
    exists|k: Seq<char>| windows.dom().contains(k) && !(#[trigger] windows[k]).minimized
}

/// Background and nap apps are sampled for CPU load; performance apps are
/// not.
pub open spec fn is_watched_tier(t: Tier) -> bool {
    t == Tier::Background || t == Tier::Nap
}

pub fn is_watched<S, M>(app: &AppState<S, M>) -> (r: bool)
    ensures
        r == is_watched_tier(app.tier),
{
    app.tier == Tier::Background || app.tier == Tier::Nap
}

/// The texts of a list of strings.
pub open spec fn texts(v: Seq<String>) -> Seq<Seq<char>> {
    v.map_values(|s: String| s@)
}

/// Equality of two lists of strings, text by text.
pub fn same_strings(a: &Vec<String>, b: &Vec<String>) -> (r: bool)
    ensures
        r == (texts(a@) == texts(b@)),
{
    if a.len() != b.len() {
        proof {
            if texts(a@) == texts(b@) {
                assert(texts(a@).len() == texts(b@).len());
            }
        }
        return false;
    }
    let mut i: usize = 0;
    while i < a.len()
        invariant
            i <= a@.len() == b@.len(),
            forall|j: int| 0 <= j < i ==> a@[j]@ == b@[j]@,
        decreases a@.len() - i,
    {
        if !str_eq(a[i].as_str(), b[i].as_str()) {
            proof {
                if texts(a@) == texts(b@) {
                    assert(texts(a@)[i as int] == texts(b@)[i as int]);
                }
            }
            return false;
        }
        i = i + 1;
    }
    assert(texts(a@) =~= texts(b@));
    true
}

/// App units can re-split (e.g. Chromium); the cgroups are refreshed on
/// reconcile. A changed set replaces the old one, invalidates the sample
/// baseline and clears the applied policy, so that the next apply runs
/// against the new units. Returns whether the set changed.
pub fn refresh_cgroups<S, M>(app: &mut AppState<S, M>, cgroups: Vec<String>) -> (r: bool)
    ensures
        r == (texts(cgroups@) != texts(old(app).cgroups@)),
        r ==> final(app).cgroups@ == cgroups@ && final(app).load_tracker.last_sample is None
            && final(app).load_tracker.load == old(app).load_tracker.load
            && final(app).load_tracker.queued_load == old(app).load_tracker.queued_load
            && final(app).load_tracker.ttl == old(app).load_tracker.ttl
            && final(app).load_tracker.metrics == old(app).load_tracker.metrics,
        !r ==> *final(app) == *old(app),
        final(app).name == old(app).name,
        final(app).windows == old(app).windows,
        final(app).tier == old(app).tier,
        r ==> final(app).applied is None,
{
    if same_strings(&cgroups, &app.cgroups) {
        return false;
    }
    app.cgroups = cgroups;
    app.load_tracker.clear_baseline();
    app.applied = None;
    true
}

fn window_is_active(w: &WindowState) -> (b: bool)
    ensures
        b == w.active,
{
    w.active
}

fn window_is_unminimized(w: &WindowState) -> (b: bool)
    ensures
        b == !w.minimized,
{
    !w.minimized
}

/// Sets the app's tier from its windows and the wake signals; entering
/// performance puts the load tracker back to cold start.
pub fn settle_tier<S, M>(app: &mut AppState<S, M>, inhibited: bool, media_playing: bool)
    requires
        old(app).windows.wf(),
    ensures
        final(app).tier == next_tier(
            any_active(old(app).windows.view()),
            any_unminimized(old(app).windows.view()),
            inhibited,
            media_playing,
        ),
        final(app).tier == Tier::Performance ==> final(app).load_tracker.is_cold(),
        final(app).tier != Tier::Performance ==> final(app).load_tracker == old(
            app,
        ).load_tracker,
        final(app).name == old(app).name,
        final(app).windows == old(app).windows,
        final(app).cgroups == old(app).cgroups,
        final(app).applied == old(app).applied,
{
    let has_active_window = app.windows.any(Ghost(|w: WindowState| w.active), window_is_active);
    let has_unminimized_window = app.windows.any(
        Ghost(|w: WindowState| !w.minimized),
        window_is_unminimized,
    );
    let next = resolve_next_tier(has_active_window, has_unminimized_window, inhibited, media_playing);
    if next == Tier::Performance {
        app.load_tracker.reset();
    }
    app.tier = next;
}

/// When the effective (tier, load) policy of the app differs from the one
/// applied, the transition to it; `None` when nothing is to be done.
pub fn effective_transition<C, S, M>(policies: &Policies<C>, app: &AppState<S, M>) -> (r: Option<
    PolicyTransition<PolicyKey>,
>)
    ensures
        ({
            let next = policy_key_for(
                app.tier,
                app.load_tracker.load,
                policies.has_background_idle(),
                policies.has_nap_busy(),
            );
            match r {
                Some(t) => next == Some(t.to) && app.applied != next && t.from == app.applied
                    && t.applied == app.applied && t.wf() && t.stage == (if app.applied is Some {
                    crate::daemon::transition::TransitionStage::Reverting
                } else {
                    crate::daemon::transition::TransitionStage::Applying
                }),
                None => next is None || app.applied == next,
            }
        }),
{
    let next = match policies.resolve(app.tier, app.load_tracker.load) {
        Some(k) => k,
        None => {
            return None;
        },
    };
    match app.applied {
        Some(cur) => if cur == next {
            return None;
        },
        None => {},
    }
    Some(PolicyTransition::start(app.applied, next))
}

/// A new window starts unminimized and active; a window already known is
/// left as it is.
pub fn add_window<S, M>(app: &mut AppState<S, M>, window_id: &str)
    requires
        old(app).windows.wf(),
    ensures
        final(app).windows.wf(),
        final(app).windows.view() == (if old(app).windows.view().dom().contains(window_id@) {
            old(app).windows.view()
        } else {
            old(app).windows.view().insert(
                window_id@,
                WindowState { minimized: false, active: true },
            )
        }),
        final(app).tier == old(app).tier,
        final(app).applied == old(app).applied,
        final(app).cgroups == old(app).cgroups,
        final(app).load_tracker == old(app).load_tracker,
{
    if !app.windows.contains_key(window_id) {
        app.windows.insert(window_id.to_owned(), WindowState { minimized: false, active: true });
    }
}

/// Forgets a window. Returns whether the app has no window left, in which
/// case the daemon reverts its policy and drops it.
pub fn remove_window<S, M>(app: &mut AppState<S, M>, window_id: &str) -> (r: bool)
    requires
        old(app).windows.wf(),
    ensures
        final(app).windows.wf(),
        final(app).windows.view() == old(app).windows.view().remove(window_id@),
        r == (final(app).windows.view().dom().len() == 0),
        final(app).tier == old(app).tier,
        final(app).applied == old(app).applied,
        final(app).cgroups == old(app).cgroups,
        final(app).load_tracker == old(app).load_tracker,
{
    let _ = app.windows.remove(window_id);
    app.windows.is_empty()
}

/// Records a window's new minimized flag. Returns `false`, changing
/// nothing, for an unknown window.
pub fn window_minimize_changed<S, M>(app: &mut AppState<S, M>, window_id: &str, minimized: bool) -> (r:
    bool)
    requires
        old(app).windows.wf(),
    ensures
        final(app).windows.wf(),
        r == old(app).windows.view().dom().contains(window_id@),
        r ==> final(app).windows.view() == old(app).windows.view().insert(
            window_id@,
            WindowState { minimized, active: old(app).windows.view()[window_id@].active },
        ),
        !r ==> final(app).windows.view() == old(app).windows.view(),
        final(app).tier == old(app).tier,
        final(app).applied == old(app).applied,
        final(app).cgroups == old(app).cgroups,
        final(app).load_tracker == old(app).load_tracker,
{
    let w = match app.windows.get(window_id) {
        Some(w) => *w,
        None => {
            return false;
        },
    };
    app.windows.insert(window_id.to_owned(), WindowState { minimized, active: w.active });
    true
}

/// Records a window's new active flag. Returns `false`, changing nothing,
/// for an unknown window.
pub fn window_active_changed<S, M>(app: &mut AppState<S, M>, window_id: &str, active: bool) -> (r:
    bool)
    requires
        old(app).windows.wf(),
    ensures
        final(app).windows.wf(),
        r == old(app).windows.view().dom().contains(window_id@),
        r ==> final(app).windows.view() == old(app).windows.view().insert(
            window_id@,
            WindowState { minimized: old(app).windows.view()[window_id@].minimized, active },
        ),
        !r ==> final(app).windows.view() == old(app).windows.view(),
        final(app).tier == old(app).tier,
        final(app).applied == old(app).applied,
        final(app).cgroups == old(app).cgroups,
        final(app).load_tracker == old(app).load_tracker,
{
    let w = match app.windows.get(window_id) {
        Some(w) => *w,
        None => {
            return false;
        },
    };
    app.windows.insert(window_id.to_owned(), WindowState { minimized: w.minimized, active });
    true
}

} // verus!
