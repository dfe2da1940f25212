use super::load_tracker::Load;
use super::tier::Tier;
use vstd::prelude::*;

verus! {

/// Variant order is significant: derived Ord ranks later variants higher.
/// Wakefulness: Performance > BackgroundBusy > BackgroundIdle > NapBusy > NapIdle
///
/// Example:
/// ```rust
/// use app_nap::daemon::models::policy::Policy;
/// let cmp = Policy::Performance > Policy::BackgroundBusy;
/// assert_eq!(cmp, true);
/// ```
#[derive(Clone, Copy, PartialEq, Eq, PartialOrd, Ord, Debug, Structural)]
pub enum Policy {
    NapIdle,
    NapBusy,
    BackgroundIdle,
    BackgroundBusy,
    Performance,
}

/// Wakefulness of a policy: its place in the declaration order.
pub open spec fn wakefulness(p: Policy) -> nat {
    match p {
        Policy::NapIdle => 0,
        Policy::NapBusy => 1,
        Policy::BackgroundIdle => 2,
        Policy::BackgroundBusy => 3,
        Policy::Performance => 4,
    }
}

impl Policy {
    /// The policy's wakefulness.
    pub fn rank(self) -> (r: u8)
        ensures
            r == wakefulness(self),
    {
        match self {
            Policy::NapIdle => 0,
            Policy::NapBusy => 1,
            Policy::BackgroundIdle => 2,
            Policy::BackgroundBusy => 3,
            Policy::Performance => 4,
        }
    }
}

/// The policy of a tier at a load; load does not matter on performance.
pub open spec fn policy_of(tier: Tier, load: Load) -> Policy {
    match (tier, load) {
        (Tier::Performance, _) => Policy::Performance,
        (Tier::Background, Load::Idle) => Policy::BackgroundIdle,
        (Tier::Background, Load::Busy) => Policy::BackgroundBusy,
        (Tier::Nap, Load::Idle) => Policy::NapIdle,
        (Tier::Nap, Load::Busy) => Policy::NapBusy,
    }
}

pub fn eval_policy(tier: Tier, load: Load) -> (r: Policy)
    ensures
        r == policy_of(tier, load),
{
    match (tier, load) {
        (Tier::Performance, _) => Policy::Performance,
        (Tier::Background, Load::Idle) => Policy::BackgroundIdle,
        (Tier::Background, Load::Busy) => Policy::BackgroundBusy,
        (Tier::Nap, Load::Idle) => Policy::NapIdle,
        (Tier::Nap, Load::Busy) => Policy::NapBusy,
    }
}

/// Focus or an inhibitor means performance; an unminimized window or
/// media playback means background; otherwise nap.
pub open spec fn tier_of(
    is_any_active: bool,
    is_any_unminimized: bool,
    is_inhibiting: bool,
    is_playing_media: bool,
) -> Tier {
    if is_any_active || is_inhibiting {
        Tier::Performance
    } else if is_any_unminimized || is_playing_media {
        Tier::Background
    } else {
        Tier::Nap
    }
}

pub fn eval_tier(
    is_any_active: bool,
    is_any_unminimized: bool,
    is_inhibiting: bool,
    is_playing_media: bool,
) -> (r: Tier)
    ensures
        r == tier_of(is_any_active, is_any_unminimized, is_inhibiting, is_playing_media),
{
    if is_any_active || is_inhibiting {
        Tier::Performance
    } else if is_any_unminimized || is_playing_media {
        // yes this is intentional
        // I only intended Background media to be throttled slightly
        Tier::Background
    } else {
        Tier::Nap
    }
}

/// Only focus or an inhibitor gives performance; without them, an
/// unminimized window or media playback gives background (media alone never
/// gives performance); with none of the four the tier is nap.
pub proof fn lemma_tier_rules(
    is_any_active: bool,
    is_any_unminimized: bool,
    is_inhibiting: bool,
    is_playing_media: bool,
)
    ensures
        (tier_of(is_any_active, is_any_unminimized, is_inhibiting, is_playing_media)
            == Tier::Performance) <==> (is_any_active || is_inhibiting),
        (tier_of(is_any_active, is_any_unminimized, is_inhibiting, is_playing_media)
            == Tier::Background) <==> (!is_any_active && !is_inhibiting && (is_any_unminimized
            || is_playing_media)),
        (tier_of(is_any_active, is_any_unminimized, is_inhibiting, is_playing_media) == Tier::Nap)
            <==> (!is_any_active && !is_inhibiting && !is_any_unminimized && !is_playing_media),
{
}

/// The most awake policy among `votes`, by the order performance, then
/// background busy, background idle, nap busy, nap idle. `None` for no
/// votes.
pub open spec fn most_awake(votes: Seq<Policy>) -> Option<Policy> {
    if votes.contains(Policy::Performance) {
        Some(Policy::Performance)
    } else if votes.contains(Policy::BackgroundBusy) {
        Some(Policy::BackgroundBusy)
    } else if votes.contains(Policy::BackgroundIdle) {
        Some(Policy::BackgroundIdle)
    } else if votes.contains(Policy::NapBusy) {
        Some(Policy::NapBusy)
    } else if votes.contains(Policy::NapIdle) {
        Some(Policy::NapIdle)
    } else {
        None
    }
}

/// A vote of `votes` that is at least as awake as each of them is the most
/// awake vote of the list: wakefulness orders the policies as performance,
/// background busy, background idle, nap busy, nap idle.
pub proof fn lemma_top_vote_is_most_awake(votes: Seq<Policy>, p: Policy)
    requires
        votes.contains(p),
        forall|i: int| 0 <= i < votes.len() ==> wakefulness(votes[i]) <= wakefulness(p),
    ensures
        most_awake(votes) == Some(p),
{
    assert forall|q: Policy| votes.contains(q) implies wakefulness(q) <= wakefulness(p) by {
        let i = choose|i: int| 0 <= i < votes.len() && votes[i] == q;
    }
}

/// The most awake of some policies: the vote a unit applies. `None` for no
/// votes.
pub fn max_vote(votes: &[Policy]) -> (r: Option<Policy>)
    ensures
        votes@.len() == 0 <==> r is None,
        r == most_awake(votes@),
        r matches Some(p) ==> votes@.contains(p) && forall|i: int|
            0 <= i < votes@.len() ==> wakefulness(votes@[i]) <= wakefulness(p),
{
    let mut best: Option<Policy> = None;
    let mut i: usize = 0;
    while i < votes.len()
        invariant
            i <= votes@.len(),
            i == 0 <==> best is None,
            best matches Some(p) ==> votes@.take(i as int).contains(p) && forall|j: int|
                0 <= j < i ==> wakefulness(votes@[j]) <= wakefulness(p),
        decreases votes@.len() - i,
    {
        let v = votes[i];
        let ghost prev = best;
        best = match best {
            Some(b) => if v.rank() > b.rank() {
                Some(v)
            } else {
                Some(b)
            },
            None => Some(v),
        };
        proof {
            let p = best->0;
            assert(votes@.take(i + 1)[i as int] == v);
            if p != v {
                let q = prev->0;
                let k = choose|k: int| 0 <= k < votes@.take(i as int).len() && votes@.take(i as int)[k] == q;
                assert(votes@.take(i + 1)[k] == q);
            }
        }
        i = i + 1;
    }
    assert(votes@.take(votes@.len() as int) =~= votes@);
    proof {
        match best {
            Some(p) => lemma_top_vote_is_most_awake(votes@, p),
            None => {},
        }
    }
    best
}

} // verus!
