//! Cgroup v2 paths of app units, as systemd lays them out under a user
//! session, and the resolution of a process's cgroup to the app unit that
//! owns it.
pub mod cpu_stat;
pub mod procfs;
pub mod resolve;
pub mod sysfs;

use crate::text::{
    chars_of, ends_with, ends_with_in, find, find_in, lemma_find, starts_with, starts_with_in,
    str_eq, substring, trim, trim_range,
};
use vstd::std_specs::cmp::PartialEqSpecImpl;
use vstd::string::*;
use vstd::prelude::*;

verus! {

/// `0::`, the separator of a unified-hierarchy line of `/proc/<pid>/cgroup`.
pub open spec fn unified_separator() -> Seq<char> {
    seq![':', ':']
}

/// `/app.slice/`, the fence under which app units live.
pub open spec fn app_slice_fence() -> Seq<char> {
    seq!['/', 'a', 'p', 'p', '.', 's', 'l', 'i', 'c', 'e', '/']
}

pub open spec fn app_prefix() -> Seq<char> {
    seq!['a', 'p', 'p', '-']
}

pub open spec fn scope_suffix() -> Seq<char> {
    seq!['.', 's', 'c', 'o', 'p', 'e']
}

pub open spec fn service_suffix() -> Seq<char> {
    seq!['.', 's', 'e', 'r', 'v', 'i', 'c', 'e']
}

pub open spec fn slice_suffix() -> Seq<char> {
    seq!['.', 's', 'l', 'i', 'c', 'e']
}

/// The cgroup path that a line of `/proc/<pid>/cgroup` names: the line
/// trimmed, and what follows its first `::`.
pub open spec fn cgroup_of_line(line: Seq<char>) -> Option<Seq<char>> {
    let t = trim(line);
    match find(t, unified_separator()) {
        Some(k) => Some(t.skip(k + 2)),
        None => None,
    }
}

/// `true` for a systemd app unit component: `app-<name>.{scope,service,slice}`.
pub open spec fn is_app_unit_name(c: Seq<char>) -> bool {
    &&& starts_with(c, app_prefix())
    &&& (ends_with(c, scope_suffix()) || ends_with(c, service_suffix()) || ends_with(
        c,
        slice_suffix(),
    ))
}

/// Start of the `/`-separated component of `s` that ends at `e`.
pub open spec fn comp_start(s: Seq<char>, e: int) -> int
    decreases e,
{
    if e <= 0 {
        0
    } else if s[e - 1] == '/' {
        e
    } else {
        comp_start(s, e - 1)
    }
}

/// `e` is where a `/`-separated component of `s` ends.
pub open spec fn is_comp_end(s: Seq<char>, e: int) -> bool {
    0 <= e <= s.len() && (e == s.len() || s[e] == '/')
}

/// The component of `s` that ends at `e` is an app unit.
pub open spec fn app_comp_ends_at(s: Seq<char>, e: int) -> bool {
    is_comp_end(s, e) && is_app_unit_name(s.subrange(comp_start(s, e), e))
}

/// End of the last app-unit component of `s`, which is the nearest app unit
/// to the leaf of the path.
#[verifier::opaque]
pub open spec fn nearest_app_end(s: Seq<char>) -> Option<int> {
    if exists|e: int| app_comp_ends_at(s, e) {
        Some(
            choose|e: int|
                app_comp_ends_at(s, e) && forall|e2: int| app_comp_ends_at(s, e2) ==> e2 <= e,
        )
    } else {
        None
    }
}

/// Where the part of `full` under the first `/app.slice/` starts, and that
/// part (everything after the fence).
pub open spec fn under_fence(full: Seq<char>) -> Option<(int, Seq<char>)> {
    match find(full, app_slice_fence()) {
        None => None,
        Some(k) => Some((k + 11, full.skip(k + 11))),
    }
}

/// `full` truncated after the nearest app unit under `/app.slice/`, or
/// `None` when no app unit stands there.
pub open spec fn nearest_app_unit_path(full: Seq<char>) -> Option<Seq<char>> {
    match under_fence(full) {
        None => None,
        Some((f, inside)) => match nearest_app_end(inside) {
            None => None,
            Some(e) => Some(full.take(f + e)),
        },
    }
}

/// The last `/`-separated component of `s`.
pub open spec fn last_component(s: Seq<char>) -> Seq<char> {
    s.skip(comp_start(s, s.len() as int))
}

/// The full cgroup v2 path from `/proc/<pid>/cgroup`, `0::` stripped.
///
/// Example: `/user.slice/…/app.slice/app-konsole-1.scope/main.scope`.
#[derive(Debug, Clone, Eq, Hash)]
pub struct CgroupPath(String);

impl PartialEq for CgroupPath {
    fn eq(&self, other: &Self) -> (r: bool) {
        str_eq(self.0.as_str(), other.0.as_str())
    }
}

impl PartialEqSpecImpl for CgroupPath {
    open spec fn obeys_eq_spec() -> bool {
        true
    }

    open spec fn eq_spec(&self, other: &Self) -> bool {
        self@ == other@
    }
}

impl PartialEq<&str> for CgroupPath {
    fn eq(&self, other: &&str) -> (r: bool) {
        str_eq(self.0.as_str(), *other)
    }
}

impl PartialEqSpecImpl<&str> for CgroupPath {
    open spec fn obeys_eq_spec() -> bool {
        true
    }

    open spec fn eq_spec(&self, other: &&str) -> bool {
        self@ == other@
    }
}

impl View for CgroupPath {
    type V = Seq<char>;

    closed spec fn view(&self) -> Seq<char> {
        self.0@
    }
}

impl CgroupPath {
    /// Parses a line of `/proc/<pid>/cgroup`; `None` when the line is not
    /// one of the unified hierarchy.
    pub fn from_cgroup_full(cgroup: &str) -> (r: Option<Self>)
        ensures
            match cgroup_of_line(cgroup@) {
                Some(p) => r matches Some(c) && c@ == p,
                None => r is None,
            },
    {
        let v = chars_of(cgroup);
        let (a, b) = trim_range(&v, 0, v.len());
        let sep = vec![':', ':'];
        match find_in(&v, a, b, &sep) {
            Some(k) => {
                proof {
                    let t = v@.subrange(a as int, b as int);
                    assert(v@.subrange(0, v@.len() as int) =~= v@);
                    lemma_find(t, sep@);
                    assert(t.skip(k - a + 2) =~= v@.subrange(k + 2, b as int));
                }
                Some(CgroupPath(substring(cgroup, k + 2, b)))
            },
            None => {
                assert(v@.subrange(0, v@.len() as int) =~= v@);
                None
            },
        }
    }

    /// The path as text.
    pub fn to_string(&self) -> (r: String)
        ensures
            r@ == self@,
    {
        self.0.clone()
    }

    /// A copy of the path.
    pub fn duplicate(&self) -> (r: Self)
        ensures
            r@ == self@,
    {
        CgroupPath(self.0.clone())
    }
}

/// [`CgroupPath`] truncated at (and including) the nearest `app-*` unit.
/// Used for reading in `/sys/fs/cgroup`.
///
/// Example: `/user.slice/…/app.slice/app-konsole-1.scope`.
#[derive(Debug, Clone, Eq, Hash)]
pub struct UnitPath(String);

impl PartialEq for UnitPath {
    fn eq(&self, other: &Self) -> (r: bool) {
        str_eq(self.0.as_str(), other.0.as_str())
    }
}

impl PartialEqSpecImpl for UnitPath {
    open spec fn obeys_eq_spec() -> bool {
        true
    }

    open spec fn eq_spec(&self, other: &Self) -> bool {
        self@ == other@
    }
}

impl PartialEq<&str> for UnitPath {
    fn eq(&self, other: &&str) -> (r: bool) {
        str_eq(self.0.as_str(), *other)
    }
}

impl PartialEqSpecImpl<&str> for UnitPath {
    open spec fn obeys_eq_spec() -> bool {
        true
    }

    open spec fn eq_spec(&self, other: &&str) -> bool {
        self@ == other@
    }
}

impl View for UnitPath {
    type V = Seq<char>;

    closed spec fn view(&self) -> Seq<char> {
        self.0@
    }
}

impl UnitPath {
    pub fn as_str(&self) -> (r: &str)
        ensures
            r@ == self@,
    {
        self.0.as_str()
    }

    /// The path as text.
    pub fn to_string(&self) -> (r: String)
        ensures
            r@ == self@,
    {
        self.0.clone()
    }

    /// A copy of the path.
    pub fn duplicate(&self) -> (r: Self)
        ensures
            r@ == self@,
    {
        UnitPath(self.0.clone())
    }

    /// The unit path of a cgroup: the cgroup path truncated after its
    /// nearest app unit under `/app.slice/`.
    pub fn from_cgroup_path(cgroup: CgroupPath) -> (r: Option<Self>)
        ensures
            match nearest_app_unit_path(cgroup@) {
                Some(p) => r matches Some(u) && u@ == p,
                None => r is None,
            },
    {
        match split_at_nearest_app_unit(cgroup.0.as_str()) {
            Some(s) => Some(UnitPath(s.to_owned())),
            None => None,
        }
    }
}

/// The nearest `app-*` unit component alone.
///
/// Example: `app-konsole-1.scope`.
///
/// This is the systemd/D-Bus handle associated with a unit ledger.
#[derive(Debug, Clone, Eq, Hash)]
pub struct UnitName(String);

impl PartialEq for UnitName {
    fn eq(&self, other: &Self) -> (r: bool) {
        str_eq(self.0.as_str(), other.0.as_str())
    }
}

impl PartialEqSpecImpl for UnitName {
    open spec fn obeys_eq_spec() -> bool {
        true
    }

    open spec fn eq_spec(&self, other: &Self) -> bool {
        self@ == other@
    }
}

impl PartialEq<&str> for UnitName {
    fn eq(&self, other: &&str) -> (r: bool) {
        str_eq(self.0.as_str(), *other)
    }
}

impl PartialEqSpecImpl<&str> for UnitName {
    open spec fn obeys_eq_spec() -> bool {
        true
    }

    open spec fn eq_spec(&self, other: &&str) -> bool {
        self@ == other@
    }
}

impl View for UnitName {
    type V = Seq<char>;

    closed spec fn view(&self) -> Seq<char> {
        self.0@
    }
}

impl UnitName {
    pub fn as_str(&self) -> (r: &str)
        ensures
            r@ == self@,
    {
        self.0.as_str()
    }

    /// The name as text.
    pub fn to_string(&self) -> (r: String)
        ensures
            r@ == self@,
    {
        self.0.clone()
    }

    /// The last component of a unit path.
    pub fn from(value: &UnitPath) -> (r: Self)
        ensures
            r@ == last_component(value@),
    {
        let s = value.0.as_str();
        let v = chars_of(s);
        let n = v.len();
        let mut i = n;
        while i > 0 && v[i - 1] != '/'
            invariant
                i <= n == v@.len(),
                v@ == s@,
                comp_start(v@, n as int) == comp_start(v@, i as int),
            decreases i,
        {
            i = i - 1;
        }
        UnitName(substring(s, i, n))
    }
}

/// Is `v[a..b]` an app unit component?
fn is_app_unit_in(v: &Vec<char>, a: usize, b: usize) -> (r: bool)
    requires
        a <= b <= v@.len(),
    ensures
        r == is_app_unit_name(v@.subrange(a as int, b as int)),
{
    let prefix = vec!['a', 'p', 'p', '-'];
    let scope = vec!['.', 's', 'c', 'o', 'p', 'e'];
    let service = vec!['.', 's', 'e', 'r', 'v', 'i', 'c', 'e'];
    let slice = vec!['.', 's', 'l', 'i', 'c', 'e'];
    starts_with_in(v, a, b, &prefix) && (ends_with_in(v, a, b, &scope) || ends_with_in(
        v,
        a,
        b,
        &service,
    ) || ends_with_in(v, a, b, &slice))
}

/// `true` for a systemd app unit component: `app-<name>.{scope,service,slice}`.
pub fn is_app_unit(component: &str) -> (r: bool)
    ensures
        r == is_app_unit_name(component@),
{
    let v = chars_of(component);
    assert(v@.subrange(0, v@.len() as int) =~= v@);
    is_app_unit_in(&v, 0, v.len())
}

/// End of the nearest app unit in `v[lo..hi]`, as a position of `v`.
fn nearest_app_end_in(v: &Vec<char>, lo: usize, hi: usize) -> (r: Option<usize>)
    requires
        lo <= hi <= v@.len(),
    ensures
        match nearest_app_end(v@.subrange(lo as int, hi as int)) {
            Some(e) => r matches Some(x) && x == lo + e,
            None => r is None,
        },
        r matches Some(x) ==> lo <= x <= hi,
{
    let ghost s = v@.subrange(lo as int, hi as int);
    let mut best: Option<usize> = None;
    let mut start = lo;
    let mut i = lo;
    while i < hi
        invariant
            lo <= start <= i <= hi <= v@.len(),
            s == v@.subrange(lo as int, hi as int),
            start - lo == comp_start(s, i - lo),
            match best {
                Some(b) => lo <= b <= i && app_comp_ends_at(s, b - lo) && forall|e2: int|
                    b - lo < e2 < i - lo ==> !app_comp_ends_at(s, e2),
                None => forall|e2: int| e2 < i - lo ==> !app_comp_ends_at(s, e2),
            },
        decreases hi - i,
    {
        let ghost j = i - lo;
        assert(s[j] == v@[i as int]);
        if v[i] == '/' {
            assert(s.subrange(comp_start(s, j), j) =~= v@.subrange(start as int, i as int));
            if is_app_unit_in(v, start, i) {
                best = Some(i);
            }
            start = i + 1;
        }
        i = i + 1;
    }
    assert(s.subrange(comp_start(s, s.len() as int), s.len() as int) =~= v@.subrange(
        start as int,
        hi as int,
    ));
    if is_app_unit_in(v, start, hi) {
        best = Some(hi);
    }
    proof {
        reveal(nearest_app_end);
        assert forall|e2: int| #[trigger] app_comp_ends_at(s, e2) implies e2 <= s.len() by {}
        match best {
            Some(b) => {
                let e = b - lo;
                assert(app_comp_ends_at(s, e));
                let c = choose|e: int|
                    app_comp_ends_at(s, e) && forall|e2: int| app_comp_ends_at(s, e2) ==> e2 <= e;
                assert(app_comp_ends_at(s, e) && forall|e2: int|
                    app_comp_ends_at(s, e2) ==> e2 <= e);
                assert(c == e);
            },
            None => {
                assert(!exists|e: int| app_comp_ends_at(s, e));
            },
        }
    }
    best
}

/// Split `full` at the nearest `app-*` unit under `/app.slice/`.
///
/// Returns the path through that unit.
fn split_at_nearest_app_unit(full: &str) -> (r: Option<&str>)
    ensures
        match nearest_app_unit_path(full@) {
            Some(p) => r matches Some(u) && u@ == p,
            None => r is None,
        },
{
    let v = chars_of(full);
    let n = v.len();
    let fence = vec!['/', 'a', 'p', 'p', '.', 's', 'l', 'i', 'c', 'e', '/'];
    assert(v@.subrange(0, n as int) =~= v@);
    let k = match find_in(&v, 0, n, &fence) {
        Some(k) => k,
        None => {
            assert(under_fence(full@) is None);
            return None;
        },
    };
    proof {
        lemma_find(v@, fence@);
    }
    let f = k + 11;
    let inside_end = n;
    proof {
        assert(full@.skip(f as int) =~= v@.subrange(f as int, inside_end as int));
        assert(under_fence(full@) == Some((f as int, v@.subrange(f as int, inside_end as int))));
    }
    match nearest_app_end_in(&v, f, inside_end) {
        Some(e) => {
            assert(v@.take(e as int) =~= v@.subrange(0, e as int));
            assert(nearest_app_end(v@.subrange(f as int, inside_end as int)) == Some(e - f));
            assert(full@.take(f + (e - f)) == full@.take(e as int));
            assert(nearest_app_unit_path(full@) == Some(full@.take(e as int)));
            Some(full.substring_char(0, e))
        },
        None => {
            assert(nearest_app_unit_path(full@) is None);
            None
        },
    }
}

} // verus!
