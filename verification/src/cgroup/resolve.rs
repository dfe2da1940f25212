//! The units a window's process is related to: those of the process and
//! of its ancestors up to the session's systemd.
use super::{nearest_app_unit_path, CgroupPath, UnitPath};
use crate::daemon::models::window_group::{has_unit, unit_set};
use vstd::prelude::*;

verus! {

/// The unit paths of some cgroups, as a set; a cgroup outside any app
/// unit gives none.
pub open spec fn units_of_cgroups(cgroups: Seq<CgroupPath>) -> Set<Seq<char>> {
    Set::new(
        |p: Seq<char>|
            exists|i: int| 0 <= i < cgroups.len() && nearest_app_unit_path(#[trigger] cgroups[i]@) == Some(p),
    )
}

/// The units of the cgroups of a process and its ancestors (read by the
/// daemon, skipping those it could not read), each once.
pub fn related_units(cgroups: Vec<CgroupPath>) -> (r: Vec<UnitPath>)
    ensures
        unit_set(r@) == units_of_cgroups(cgroups@),
        forall|i: int, j: int| 0 <= i < r@.len() && 0 <= j < r@.len() && i != j ==> r@[i]@ != r@[j]@,
{
    let mut r: Vec<UnitPath> = Vec::new();
    let mut i: usize = 0;
    while i < cgroups.len()
        invariant
            i <= cgroups@.len(),
            unit_set(r@) == units_of_cgroups(cgroups@.take(i as int)),
            forall|a: int, b: int| 0 <= a < r@.len() && 0 <= b < r@.len() && a != b ==> r@[a]@ != r@[b]@,
        decreases cgroups@.len() - i,
    {
        let ghost before = r@;
        let ghost found = nearest_app_unit_path(cgroups@[i as int]@);
        match UnitPath::from_cgroup_path(cgroups[i].duplicate()) {
            Some(unit_path) => {
                if !has_unit(&r, &unit_path) {
                    r.push(unit_path);
                    proof {
                        assert forall|a: int, b: int|
                            0 <= a < r@.len() && 0 <= b < r@.len() && a != b implies r@[a]@ != r@[b]@ by {
                            if a < before.len() && b < before.len() {
                                assert(r@[a] == before[a] && r@[b] == before[b]);
                            } else if a < before.len() {
                                assert(r@[a] == before[a]);
                                assert(unit_set(before).contains(before[a]@));
                            } else {
                                assert(r@[b] == before[b]);
                                assert(unit_set(before).contains(before[b]@));
                            }
                        }
                    }
                }
            },
            None => {},
        }
        proof {
            let t0 = cgroups@.take(i as int);
            let t1 = cgroups@.take(i + 1);
            assert forall|p: Seq<char>| unit_set(r@).contains(p) <==> units_of_cgroups(t1).contains(p) by {
                if units_of_cgroups(t1).contains(p) {
                    let k = choose|k: int| 0 <= k < t1.len() && nearest_app_unit_path(#[trigger] t1[k]@) == Some(p);
                    if k < i {
                        assert(t0[k] == t1[k]);
                        assert(units_of_cgroups(t0).contains(p));
                        let j = choose|j: int| 0 <= j < before.len() && (#[trigger] before[j])@ == p;
                        assert(r@[j] == before[j]);
                    } else {
                        assert(t1[k] == cgroups@[i as int]);
                        if unit_set(before).contains(p) {
                            let j = choose|j: int| 0 <= j < before.len() && (#[trigger] before[j])@ == p;
                            assert(r@[j] == before[j]);
                        } else {
                            assert(r@[r@.len() - 1]@ == p);
                        }
                    }
                }
                if unit_set(r@).contains(p) {
                    let j = choose|j: int| 0 <= j < r@.len() && (#[trigger] r@[j])@ == p;
                    if j < before.len() {
                        assert(r@[j] == before[j]);
                        assert(unit_set(before).contains(p));
                        let k = choose|k: int| 0 <= k < t0.len() && nearest_app_unit_path(#[trigger] t0[k]@) == Some(p);
                        assert(t1[k] == t0[k]);
                    } else {
                        assert(t1[i as int] == cgroups@[i as int]);
                    }
                }
            }
            assert(unit_set(r@) =~= units_of_cgroups(t1));
        }
        i = i + 1;
    }
    proof {
        assert(cgroups@.take(cgroups@.len() as int) =~= cgroups@);
    }
    r
}

} // verus!
