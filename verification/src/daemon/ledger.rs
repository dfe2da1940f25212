//! The unit ledger: which window groups vote on which systemd units. A
//! unit is managed exactly while some window group has processes in it,
//! and its voters are exactly those groups. The daemon's operations keep
//! this; the lemmas here are the steps they take.
use super::models::managed_unit::ManagedUnit;
use crate::cgroup::last_component;
use vstd::prelude::*;

verus! {

/// The ledger `units` agrees with `listed`, the units each window group
/// (by pid) has processes in.
pub open spec fn consistent(listed: Map<i32, Set<Seq<char>>>, units: Map<Seq<char>, ManagedUnit>) -> bool {
    &&& forall|u: Seq<char>, p: i32|
        #![trigger units[u].voters@.contains(p)]
        #![trigger listed[p].contains(u), units.dom().contains(u)]
        units.dom().contains(u) ==> (units[u].voters@.contains(p) <==> (listed.dom().contains(p)
            && listed[p].contains(u)))
    &&& forall|p: i32, u: Seq<char>|
        listed.dom().contains(p) && #[trigger] listed[p].contains(u) ==> units.dom().contains(u)
    &&& forall|u: Seq<char>|
        #[trigger] units.dom().contains(u) ==> !units[u].voters@.is_empty() && units[u].name@
            == last_component(u)
}

/// `new` is `old` after the group `pid` left the unit `u`: the pid is
/// dropped from the unit's voters, and the unit is dropped when no voter
/// is left. Nothing changes for a unit not in the ledger.
pub open spec fn left(
    old: Map<Seq<char>, ManagedUnit>,
    new: Map<Seq<char>, ManagedUnit>,
    u: Seq<char>,
    pid: i32,
) -> bool {
    &&& forall|k: Seq<char>|
        k != u ==> (#[trigger] new.dom().contains(k) == old.dom().contains(k) && (old.dom().contains(
            k,
        ) ==> new[k] == old[k]))
    &&& if !old.dom().contains(u) {
        !new.dom().contains(u)
    } else if old[u].voters@.remove(pid).is_empty() {
        !new.dom().contains(u)
    } else {
        &&& new.dom().contains(u)
        &&& new[u].voters@ == old[u].voters@.remove(pid)
        &&& new[u].name == old[u].name
        &&& new[u].applied_policy == old[u].applied_policy
    }
}

/// `new` is `old` after the group `pid` joined the unit `u`, which is added
/// with no policy applied when it is new.
pub open spec fn joined(
    old: Map<Seq<char>, ManagedUnit>,
    new: Map<Seq<char>, ManagedUnit>,
    u: Seq<char>,
    pid: i32,
) -> bool {
    &&& forall|k: Seq<char>|
        k != u ==> (#[trigger] new.dom().contains(k) == old.dom().contains(k) && (old.dom().contains(
            k,
        ) ==> new[k] == old[k]))
    &&& new.dom().contains(u)
    &&& if old.dom().contains(u) {
        &&& new[u].voters@ == old[u].voters@.insert(pid)
        &&& new[u].name == old[u].name
        &&& new[u].applied_policy == old[u].applied_policy
    } else {
        &&& new[u].voters@ == set![pid]
        &&& new[u].name@ == last_component(u)
        &&& new[u].applied_policy is None
    }
}

/// From `old` to `new`, each unit that stays in the ledger keeps its name
/// and the policy recorded as applied to it, and each unit that enters it
/// has no policy applied yet.
pub open spec fn kept_applied(old: Map<Seq<char>, ManagedUnit>, new: Map<Seq<char>, ManagedUnit>) -> bool {
    forall|u: Seq<char>| #[trigger] new.dom().contains(u) ==> if old.dom().contains(u) {
        new[u].name == old[u].name && new[u].applied_policy == old[u].applied_policy
    } else {
        new[u].applied_policy is None
    }
}

/// A new group with no units keeps the ledger consistent.
pub proof fn lemma_add_group(listed: Map<i32, Set<Seq<char>>>, units: Map<Seq<char>, ManagedUnit>, pid: i32)
    requires
        consistent(listed, units),
        !listed.dom().contains(pid),
    ensures
        consistent(listed.insert(pid, Set::empty()), units),
{
    let l2 = listed.insert(pid, Set::empty());
    assert forall|u: Seq<char>, p: i32| units.dom().contains(u) implies (
    units[u].voters@.contains(p) <==> (l2.dom().contains(p) && l2[p].contains(u))) by {
        if p != pid {
            assert(l2[p] == listed[p]);
        }
    }
}

/// A group with no units left can go.
pub proof fn lemma_remove_group(listed: Map<i32, Set<Seq<char>>>, units: Map<Seq<char>, ManagedUnit>, pid: i32)
    requires
        consistent(listed, units),
        listed.dom().contains(pid),
        listed[pid].is_empty(),
    ensures
        consistent(listed.remove(pid), units),
{
    let l2 = listed.remove(pid);
    assert forall|u: Seq<char>, p: i32| units.dom().contains(u) implies (
    units[u].voters@.contains(p) <==> (l2.dom().contains(p) && l2[p].contains(u))) by {
        if p == pid {
            assert(!listed[pid].contains(u));
        } else {
            assert(l2[p] == listed[p]);
        }
    }
}

/// Leaving a unit drops it from the group's units.
pub proof fn lemma_leave(
    listed: Map<i32, Set<Seq<char>>>,
    units: Map<Seq<char>, ManagedUnit>,
    new_units: Map<Seq<char>, ManagedUnit>,
    u: Seq<char>,
    pid: i32,
)
    requires
        consistent(listed, units),
        listed.dom().contains(pid),
        left(units, new_units, u, pid),
    ensures
        consistent(listed.insert(pid, listed[pid].remove(u)), new_units),
{
    let l2 = listed.insert(pid, listed[pid].remove(u));
    assert forall|k: Seq<char>, p: i32| new_units.dom().contains(k) implies (
    new_units[k].voters@.contains(p) <==> (l2.dom().contains(p) && l2[p].contains(k))) by {
        assert(units.dom().contains(k));
        if p != pid {
            assert(l2[p] == listed[p]);
        }
        if k == u {
            assert(units[u].voters@.contains(p) <==> (listed.dom().contains(p) && listed[p].contains(u)));
        } else {
            assert(units[k].voters@.contains(p) <==> (listed.dom().contains(p) && listed[p].contains(k)));
        }
    }
    assert forall|p: i32, k: Seq<char>|
        l2.dom().contains(p) && #[trigger] l2[p].contains(k) implies new_units.dom().contains(k) by {
        if p != pid {
            assert(l2[p] == listed[p]);
        }
        assert(listed[p].contains(k));
        assert(units.dom().contains(k));
        if k == u {
            assert(p != pid);
            assert(units[u].voters@.contains(p));
            assert(units[u].voters@.remove(pid).contains(p));
        }
    }
    assert forall|k: Seq<char>| #[trigger] new_units.dom().contains(k) implies !new_units[k].voters@.is_empty()
        && new_units[k].name@ == last_component(k) by {
        assert(units.dom().contains(k));
    }
}

/// Joining a unit adds it to the group's units.
pub proof fn lemma_join(
    listed: Map<i32, Set<Seq<char>>>,
    units: Map<Seq<char>, ManagedUnit>,
    new_units: Map<Seq<char>, ManagedUnit>,
    u: Seq<char>,
    pid: i32,
)
    requires
        consistent(listed, units),
        listed.dom().contains(pid),
        joined(units, new_units, u, pid),
    ensures
        consistent(listed.insert(pid, listed[pid].insert(u)), new_units),
{
    let l2 = listed.insert(pid, listed[pid].insert(u));
    assert forall|k: Seq<char>, p: i32| new_units.dom().contains(k) implies (
    new_units[k].voters@.contains(p) <==> (l2.dom().contains(p) && l2[p].contains(k))) by {
        if p != pid {
            assert(l2[p] == listed[p]);
        }
        if k == u {
            if units.dom().contains(u) {
                assert(units[u].voters@.contains(p) <==> (listed.dom().contains(p)
                    && listed[p].contains(u)));
            } else {
                if listed.dom().contains(p) && listed[p].contains(u) {
                    assert(units.dom().contains(u));
                }
            }
        } else {
            assert(units.dom().contains(k));
            assert(units[k].voters@.contains(p) <==> (listed.dom().contains(p) && listed[p].contains(k)));
        }
    }
    assert forall|p: i32, k: Seq<char>|
        l2.dom().contains(p) && #[trigger] l2[p].contains(k) implies new_units.dom().contains(k) by {
        if p != pid {
            assert(l2[p] == listed[p]);
        }
        if k != u {
            assert(listed[p].contains(k));
            assert(units.dom().contains(k));
        }
    }
    assert forall|k: Seq<char>| #[trigger] new_units.dom().contains(k) implies !new_units[k].voters@.is_empty()
        && new_units[k].name@ == last_component(k) by {
        if k == u {
            assert(new_units[k].voters@.contains(pid));
        } else {
            assert(units.dom().contains(k));
        }
    }
}


/// Changing what a unit has applied, and nothing else, keeps the ledger
/// consistent.
pub proof fn lemma_same_voters(
    listed: Map<i32, Set<Seq<char>>>,
    units: Map<Seq<char>, ManagedUnit>,
    new_units: Map<Seq<char>, ManagedUnit>,
)
    requires
        consistent(listed, units),
        new_units.dom() == units.dom(),
        forall|k: Seq<char>|
            #[trigger] units.dom().contains(k) ==> new_units[k].voters@ == units[k].voters@
                && new_units[k].name == units[k].name,
    ensures
        consistent(listed, new_units),
{
    assert forall|u: Seq<char>, p: i32| new_units.dom().contains(u) implies (
    new_units[u].voters@.contains(p) <==> (listed.dom().contains(p) && listed[p].contains(u))) by {
        assert(units.dom().contains(u));
        assert(units[u].voters@.contains(p) <==> (listed.dom().contains(p) && listed[p].contains(u)));
    }
    assert forall|u: Seq<char>| #[trigger] new_units.dom().contains(u) implies !new_units[u].voters@.is_empty()
        && new_units[u].name@ == last_component(u) by {
        assert(units.dom().contains(u));
    }
}
} // verus!
