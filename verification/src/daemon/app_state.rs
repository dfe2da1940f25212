//! The state the tier layout keeps of one app.
use crate::daemon::load_tracker::LoadTracker;
use crate::daemon::policy::PolicyKey;
use crate::table::Table;
use vstd::prelude::*;

verus! {

#[derive(Debug, Clone, Copy, PartialEq, Eq, Structural)]
pub struct WindowState {
    pub minimized: bool,
    pub active: bool,
}

#[derive(Debug, Copy, Clone, PartialEq, Eq, Structural)]
pub enum Tier {
    Performance,
    Background,
    Nap,
    Unknown,  // not reconciled yet
}

impl Tier {
    pub fn as_str(self) -> (r: &'static str)
        ensures
            r@ == tier_name(self),
    {
        match self {
            Tier::Performance => "performance",
            Tier::Background => "background",
            Tier::Nap => "nap",
            Tier::Unknown => "unknown",
        }
    }
}

pub open spec fn tier_name(t: Tier) -> Seq<char> {
    match t {
        Tier::Performance => "performance"@,
        Tier::Background => "background"@,
        Tier::Nap => "nap"@,
        Tier::Unknown => "unknown"@,
    }
}

/// CPU load sub-state on `background` / `nap`; unused on `performance`.
#[derive(Debug, Copy, Clone, PartialEq, Eq, Structural)]
pub enum Load {
    Busy,
    Idle,
}

impl Load {
    pub fn as_str(self) -> (r: &'static str)
        ensures
            r@ == load_name(self),
    {
        match self {
            Load::Busy => "busy",
            Load::Idle => "idle",
        }
    }
}

pub open spec fn load_name(l: Load) -> Seq<char> {
    match l {
        Load::Busy => "busy"@,
        Load::Idle => "idle"@,
    }
}

/// What is kept of one app: its windows by id, its cgroups, the desired
/// tier, the last applied policy and its load tracker (`S` and `M` as in
/// [`LoadTracker`]).
#[derive(Debug)]
pub struct AppState<S, M> {
    /// `comm` of the window pid, cached for reporting only.
    pub name: String,
    pub windows: Table<WindowState>,
    pub cgroups: Vec<String>,
    /// Desired tier from window / media / inhibitor events.
    pub tier: Tier,
    /// Last successfully applied effective (tier, load) policy.
    /// Stays behind on failure so the next reconcile retries the transition.
    /// Cleared when the related cgroup set changes so apply runs against the new units.
    pub applied: Option<PolicyKey>,
    pub load_tracker: LoadTracker<S, M>,
}

impl<S, M> AppState<S, M> {
    pub fn new(name: String, cgroups: Vec<String>) -> (r: Self)
        ensures
            r.name@ == name@,
            r.cgroups@ == cgroups@,
            r.windows.wf(),
            r.windows.view() == Map::<Seq<char>, WindowState>::empty(),
            r.tier == Tier::Unknown,
            r.applied is None,
            r.load_tracker.is_cold(),
    {
        Self {
            name,
            windows: Table::new(),
            cgroups,
            tier: Tier::Unknown,
            applied: None,
            load_tracker: LoadTracker::new(),
        }
    }

    pub fn load(&self) -> (r: Load)
        ensures
            r == self.load_tracker.load,
    {
        self.load_tracker.load
    }
}

} // verus!
