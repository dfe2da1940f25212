//! What the daemon reports of a window group when asked for its apps.
use super::policy::Policy;
use super::window_group::WindowGroup;
use vstd::prelude::*;

verus! {

/// A window group as reported: `metrics` holds the usage and throttle of
/// the last polled reading, `None` before the first one.
#[derive(Debug, Clone)]
pub struct AppSnapshot<M> {
    pub window_pid: i32,
    pub comm: String,
    pub policy: Policy,
    pub metrics: Option<M>,
    pub window_count: usize,
}

impl<M: Copy> AppSnapshot<M> {
    pub fn new<S>(group: &WindowGroup<S, M>) -> (r: Self)
        requires
            group.wf(),
        ensures
            r.window_pid == group.spec_pid(),
            r.comm@ == group.spec_comm(),
            r.policy == group.spec_vote(),
            r.metrics == group.spec_tracker().spec_metrics(),
            r.window_count == group.spec_windows().dom().len(),
    {
        let metrics = match group.metrics() {
            Some(m) => Some(*m),
            None => None,
        };
        AppSnapshot {
            window_pid: group.window_pid(),
            comm: group.comm().to_string(),
            policy: group.policy_vote(),
            metrics,
            window_count: group.window_count(),
        }
    }
}

} // verus!
