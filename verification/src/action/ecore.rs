//! Nap backend that pushes napped apps onto the CPU's efficiency cores
//! (E-cores) and restores them to all cores on resume.
//!
//! On hybrid CPUs (Intel Alder Lake and later) the kernel exposes the
//! E-cores via `/sys/devices/cpu_atom/cpus` and the full online set via
//! `/sys/devices/system/cpu/online`. Both files use the kernel's CPU-list
//! format: a comma-separated list of single numbers and `start-end` ranges
//! (e.g. `0-3,8-11,15`).
//!
//! The sets are held here as [`CpuSet`], the model of the kernel's
//! `cpu_set_t`; the affinity system calls are made by the daemon.
use crate::text::{
    all_digits, char_end, char_end_in, chars_of, digit_value, digits_value, is_digit, is_ws, lemma_char_end,
    parse_unsigned, parse_unsigned_in, split_pieces, trim, trim_range,
};
use vstd::prelude::*;

verus! {

/// Number of CPUs a `cpu_set_t` can hold: `8 * size_of::<cpu_set_t>()`.
pub const CPU_SET_CAPACITY: usize = 1024;

/// Why a CPU list or a CPU id was refused.
#[derive(Debug, Clone, Copy, PartialEq, Eq)]
pub enum CpuListError {
    /// A bound of a range is not a `usize` (invalid data).
    InvalidNumber,
    /// A range whose start is above its end (invalid data).
    InvalidRange,
    /// A CPU id at or above [`CPU_SET_CAPACITY`] (invalid input).
    CpuOutOfRange,
}

/// A set of CPU ids below [`CPU_SET_CAPACITY`].
#[derive(Debug)]
pub struct CpuSet {
    bits: Vec<bool>,
}

impl CpuSet {
    /// The set holds one flag per CPU id it can hold.
    pub closed spec fn wf(self) -> bool {
        self.bits@.len() == CPU_SET_CAPACITY
    }

    /// The ids in the set.
    pub closed spec fn cpus(self) -> Set<int> {
        Set::new(|i: int| 0 <= i < CPU_SET_CAPACITY && self.bits@[i])
    }

    /// A copy of the set.
    pub fn duplicate(&self) -> (r: Self)
        requires
            self.wf(),
        ensures
            r.wf(),
            r.cpus() == self.cpus(),
    {
        let mut bits: Vec<bool> = Vec::new();
        let mut i: usize = 0;
        while i < CPU_SET_CAPACITY
            invariant
                i <= CPU_SET_CAPACITY,
                self.bits@.len() == CPU_SET_CAPACITY,
                bits@ == self.bits@.take(i as int),
            decreases CPU_SET_CAPACITY - i,
        {
            bits.push(self.bits[i]);
            i = i + 1;
        }
        assert(bits@ =~= self.bits@);
        let r = CpuSet { bits };
        assert(r.cpus() =~= self.cpus());
        r
    }
}

/// The ids `start..=end`.
pub open spec fn cpu_range(start: int, end: int) -> Set<int> {
    Set::new(|i: int| start <= i <= end)
}

pub fn empty_cpuset() -> (r: CpuSet)
    ensures
        r.wf(),
        r.cpus() == Set::<int>::empty(),
{
    let mut bits: Vec<bool> = Vec::new();
    let mut i: usize = 0;
    while i < CPU_SET_CAPACITY
        invariant
            i <= CPU_SET_CAPACITY,
            bits@.len() == i,
            forall|j: int| 0 <= j < i ==> !bits@[j],
        decreases CPU_SET_CAPACITY - i,
    {
        bits.push(false);
        i = i + 1;
    }
    let r = CpuSet { bits };
    assert(r.cpus() =~= Set::<int>::empty());
    r
}

pub fn cpu_count() -> (r: usize)
    ensures
        r == CPU_SET_CAPACITY,
{
    CPU_SET_CAPACITY
}

/// Adds `cpu` to the set; refused for an id the set cannot hold.
pub fn cpu_set(cpu: usize, cpuset: &mut CpuSet) -> (r: Result<(), CpuListError>)
    requires
        old(cpuset).wf(),
    ensures
        final(cpuset).wf(),
        cpu < CPU_SET_CAPACITY ==> r is Ok && final(cpuset).cpus() == old(cpuset).cpus().insert(
            cpu as int,
        ),
        cpu >= CPU_SET_CAPACITY ==> r == Err::<(), CpuListError>(CpuListError::CpuOutOfRange)
            && final(cpuset).cpus() == old(cpuset).cpus(),
{
    if cpu >= cpu_count() {
        return Err(CpuListError::CpuOutOfRange);
    }
    let ghost before = cpuset.cpus();
    cpuset.bits.set(cpu, true);
    assert(cpuset.cpus() =~= before.insert(cpu as int));
    Ok(())
}

/// Whether `cpu` is in the set; refused for an id the set cannot hold.
pub fn cpu_is_set(cpu: usize, cpuset: &CpuSet) -> (r: Result<bool, CpuListError>)
    requires
        cpuset.wf(),
    ensures
        cpu < CPU_SET_CAPACITY ==> r == Ok::<bool, CpuListError>(
            cpuset.cpus().contains(cpu as int),
        ),
        cpu >= CPU_SET_CAPACITY ==> r == Err::<bool, CpuListError>(CpuListError::CpuOutOfRange),
{
    if cpu >= cpu_count() {
        return Err(CpuListError::CpuOutOfRange);
    }
    Ok(cpuset.bits[cpu])
}

/// The bounds of one token of a CPU list: split at its first `-` and both
/// sides trimmed, or the token twice when it holds no `-`.
pub open spec fn token_bounds(t: Seq<char>) -> (Seq<char>, Seq<char>) {
    let e = char_end(t, '-');
    if e < t.len() {
        (trim(t.take(e as int)), trim(t.skip(e + 1 as int)))
    } else {
        (t, t)
    }
}

/// The comma-separated pieces `ps` read in order into `set`: empty pieces
/// are skipped, and the first piece that is not a valid range refuses the
/// whole list.
pub open spec fn scan_cpu_list(ps: Seq<Seq<char>>, set: Set<int>) -> Result<Set<int>, CpuListError>
    decreases ps.len(),
{
    if ps.len() == 0 {
        Ok(set)
    } else {
        let t = trim(ps[0]);
        if t.len() == 0 {
            scan_cpu_list(ps.drop_first(), set)
        } else {
            let (a, b) = token_bounds(t);
            match (parse_unsigned(a, usize::MAX as int), parse_unsigned(b, usize::MAX as int)) {
                (Some(start), Some(end)) => if start > end {
                    Err(CpuListError::InvalidRange)
                } else if end >= CPU_SET_CAPACITY {
                    Err(CpuListError::CpuOutOfRange)
                } else {
                    scan_cpu_list(ps.drop_first(), set.union(cpu_range(start, end)))
                },
                _ => Err(CpuListError::InvalidNumber),
            }
        }
    }
}

/// The CPU ids that a kernel CPU list names.
pub open spec fn cpu_list_of(raw: Seq<char>) -> Result<Set<int>, CpuListError> {
    scan_cpu_list(split_pieces(trim(raw), ','), Set::empty())
}

/// Adds `start..=end` to the set.
fn set_range(cpuset: &mut CpuSet, start: usize, end: usize)
    requires
        start <= end < CPU_SET_CAPACITY,
        old(cpuset).wf(),
    ensures
        final(cpuset).wf(),
        final(cpuset).cpus() == old(cpuset).cpus().union(cpu_range(start as int, end as int)),
{
    let ghost before = cpuset.cpus();
    let mut id = start;
    while id <= end
        invariant
            start <= id <= end + 1,
            end < CPU_SET_CAPACITY,
            cpuset.wf(),
            cpuset.cpus() == before.union(cpu_range(start as int, id - 1)),
        decreases end + 1 - id,
    {
        let ghost prev = cpuset.cpus();
        let _ = cpu_set(id, cpuset);
        assert(cpuset.cpus() =~= before.union(cpu_range(start as int, id as int)));
        id = id + 1;
    }
}

/// Parse a kernel CPU-list string (e.g. `"0-3,8-11,15"`) into a [`CpuSet`].
pub fn parse_cpu_list(raw: &str) -> (r: Result<CpuSet, CpuListError>)
    ensures
        match cpu_list_of(raw@) {
            Ok(ids) => r matches Ok(set) && set.wf() && set.cpus() == ids,
            Err(e) => r matches Err(e2) && e2 == e,
        },
{
    let v = chars_of(raw);
    let n = v.len();
    assert(v@.subrange(0, n as int) =~= v@);
    let (a, b) = trim_range(&v, 0, n);
    let mut cpuset = empty_cpuset();
    let mut pos = a;
    loop
        invariant_except_break
            a <= pos <= b <= n == v@.len(),
            v@ == raw@,
            cpuset.wf(),
            cpu_list_of(raw@) == scan_cpu_list(
                split_pieces(v@.subrange(pos as int, b as int), ','),
                cpuset.cpus(),
            ),
        ensures
            cpuset.wf(),
            cpu_list_of(raw@) == Ok::<Set<int>, CpuListError>(cpuset.cpus()),
        decreases b + 1 - pos,
    {
        let ghost rem = v@.subrange(pos as int, b as int);
        let ghost before = cpuset.cpus();
        let e = char_end_in(&v, pos, b, ',');
        proof {
            lemma_char_end(rem, ',');
            let piece = v@.subrange(pos as int, e as int);
            if e < b {
                assert(rem.take(e - pos) =~= piece);
                assert(rem.skip(e - pos + 1) =~= v@.subrange(e + 1, b as int));
                assert(split_pieces(rem, ',') =~= seq![piece] + split_pieces(
                    v@.subrange(e + 1, b as int),
                    ',',
                ));
                assert((seq![piece] + split_pieces(v@.subrange(e + 1, b as int), ',')).drop_first()
                    =~= split_pieces(v@.subrange(e + 1, b as int), ','));
            } else {
                assert(rem =~= piece);
                assert(split_pieces(rem, ',') =~= seq![piece]);
                assert(seq![piece].drop_first() =~= Seq::<Seq<char>>::empty());
            }
        }
        let (ta, tb) = trim_range(&v, pos, e);
        if ta < tb {
            let ghost t = v@.subrange(ta as int, tb as int);
            let d = char_end_in(&v, ta, tb, '-');
            let (sa, sb, ea, eb) = if d < tb {
                let (sa, sb) = trim_range(&v, ta, d);
                let (ea, eb) = trim_range(&v, d + 1, tb);
                (sa, sb, ea, eb)
            } else {
                (ta, tb, ta, tb)
            };
            proof {
                lemma_char_end(t, '-');
                if d < tb {
                    assert(t.take(d - ta) =~= v@.subrange(ta as int, d as int));
                    assert(t.skip(d - ta + 1) =~= v@.subrange(d + 1, tb as int));
                }
                assert(token_bounds(t) == (v@.subrange(sa as int, sb as int), v@.subrange(
                    ea as int,
                    eb as int,
                )));
            }
            let start = parse_unsigned_in(&v, sa, sb, usize::MAX as u64);
            let end = parse_unsigned_in(&v, ea, eb, usize::MAX as u64);
            match (start, end) {
                (Some(s), Some(x)) => {
                    if s > x {
                        return Err(CpuListError::InvalidRange);
                    }
                    if x >= CPU_SET_CAPACITY as u64 {
                        return Err(CpuListError::CpuOutOfRange);
                    }
                    set_range(&mut cpuset, s as usize, x as usize);
                },
                _ => {
                    return Err(CpuListError::InvalidNumber);
                },
            }
        }
        if e < b {
            pos = e + 1;
        } else {
            assert(scan_cpu_list(Seq::<Seq<char>>::empty(), cpuset.cpus()) == Ok::<
                Set<int>,
                CpuListError,
            >(cpuset.cpus()));
            assert(scan_cpu_list(split_pieces(rem, ','), before) == scan_cpu_list(
                Seq::<Seq<char>>::empty(),
                cpuset.cpus(),
            ));
            break ;
        }
    }
    Ok(cpuset)
}

/// The two CPU sets of the E-core backend.
#[derive(Debug)]
pub struct ECoreAction {
    ecores: CpuSet,
    allcores: CpuSet,
}

impl ECoreAction {
    /// Both sets are well formed.
    pub closed spec fn wf(self) -> bool {
        self.ecores.wf() && self.allcores.wf()
    }

    /// Builds the backend from the text of the E-core list
    /// (`/sys/devices/cpu_atom/cpus`) and of the online list
    /// (`/sys/devices/system/cpu/online`).
    pub fn new(ecores_list: &str, online_list: &str) -> (r: Result<Self, CpuListError>)
        ensures
            match (cpu_list_of(ecores_list@), cpu_list_of(online_list@)) {
                (Ok(e), Ok(a)) => r matches Ok(act) && act.wf() && act.ecores().cpus() == e
                    && act.allcores().cpus() == a,
                (Err(err), _) => r == Err::<Self, CpuListError>(err),
                (Ok(_), Err(err)) => r == Err::<Self, CpuListError>(err),
            },
    {
        let ecores = match parse_cpu_list(ecores_list) {
            Ok(s) => s,
            Err(e) => {
                return Err(e);
            },
        };
        let allcores = match parse_cpu_list(online_list) {
            Ok(s) => s,
            Err(e) => {
                return Err(e);
            },
        };
        Ok(ECoreAction { ecores, allcores })
    }

    pub closed spec fn ecores(self) -> CpuSet {
        self.ecores
    }

    pub closed spec fn allcores(self) -> CpuSet {
        self.allcores
    }

    /// The affinity that napping pins an app to: the E-cores.
    pub fn apply(&self) -> (r: &CpuSet)
        requires
            self.wf(),
        ensures
            r.wf(),
            r.cpus() == self.ecores().cpus(),
    {
        &self.ecores
    }

    /// The affinity that resuming restores: all online cores.
    pub fn revert(&self) -> (r: &CpuSet)
        requires
            self.wf(),
        ensures
            r.wf(),
            r.cpus() == self.allcores().cpus(),
    {
        &self.allcores
    }

    /// A copy of the backend.
    pub fn duplicate(&self) -> (r: Self)
        requires
            self.wf(),
        ensures
            r.wf(),
            r.ecores().cpus() == self.ecores().cpus(),
            r.allcores().cpus() == self.allcores().cpus(),
    {
        ECoreAction { ecores: self.ecores.duplicate(), allcores: self.allcores.duplicate() }
    }
}

/// The decimal digit `d` (below 10).
pub open spec fn digit_char(d: int) -> char {
    if d <= 0 {
        '0'
    } else if d == 1 {
        '1'
    } else if d == 2 {
        '2'
    } else if d == 3 {
        '3'
    } else if d == 4 {
        '4'
    } else if d == 5 {
        '5'
    } else if d == 6 {
        '6'
    } else if d == 7 {
        '7'
    } else if d == 8 {
        '8'
    } else {
        '9'
    }
}

/// `n` written in decimal, without leading zeros.
pub open spec fn decimal(n: nat) -> Seq<char>
    decreases n,
{
    if n < 10 {
        seq![digit_char(n as int)]
    } else {
        decimal(n / 10).push(digit_char((n % 10) as int))
    }
}

proof fn lemma_decimal(n: nat)
    ensures
        decimal(n).len() > 0,
        all_digits(decimal(n)),
        digits_value(decimal(n)) == n,
        parse_unsigned(decimal(n), usize::MAX as int) == (if n <= usize::MAX {
            Some(n as int)
        } else {
            None
        }),
    decreases n,
{
    let d = decimal(n);
    if n < 10 {
        assert(d.drop_last() =~= Seq::<char>::empty());
        assert(digit_value(digit_char(n as int)) == n);
        assert(digits_value(d) == digits_value(d.drop_last()) * 10 + digit_value(d.last()));
    } else {
        lemma_decimal(n / 10);
        assert(d.drop_last() =~= decimal(n / 10));
        let r = (n % 10) as int;
        assert(0 <= r < 10);
        assert(digit_value(digit_char(r)) == r);
        assert(d.last() == digit_char(r));
        assert(digits_value(d) == digits_value(d.drop_last()) * 10 + digit_value(d.last()));
        assert((n / 10) * 10 + r == n);
        assert(all_digits(d)) by {
            assert forall|i: int| 0 <= i < d.len() implies is_digit(#[trigger] d[i]) by {
                if i < d.len() - 1 {
                    assert(d[i] == decimal(n / 10)[i]);
                }
            }
        }
    }
    assert(d[0] != '+');
}

/// Leading and trailing characters that are not white space leave `s` as
/// it is under `trim`.
proof fn lemma_trim_keeps(s: Seq<char>)
    requires
        s.len() > 0,
        !is_ws(s[0]),
        !is_ws(s.last()),
    ensures
        trim(s) == s,
{
}

/// The first `c` of `s` is at `k`.
proof fn lemma_char_end_at(s: Seq<char>, c: char, k: int)
    requires
        0 <= k <= s.len(),
        forall|i: int| 0 <= i < k ==> s[i] != c,
        k < s.len() ==> s[k] == c,
    ensures
        char_end(s, c) == k,
{
    lemma_char_end(s, c);
}

/// The range `start-end` as a kernel CPU list writes it.
pub open spec fn range_text(start: nat, end: nat) -> Seq<char> {
    decimal(start) + seq!['-'] + decimal(end)
}

/// The ranges joined by commas, as a kernel CPU list writes them.
pub open spec fn ranges_text(ranges: Seq<(nat, nat)>) -> Seq<char>
    decreases ranges.len(),
{
    if ranges.len() == 0 {
        Seq::empty()
    } else if ranges.len() == 1 {
        range_text(ranges[0].0, ranges[0].1)
    } else {
        range_text(ranges[0].0, ranges[0].1) + seq![','] + ranges_text(ranges.drop_first())
    }
}

/// The CPU ids that some range of `ranges` covers.
pub open spec fn ranges_cpus(ranges: Seq<(nat, nat)>) -> Set<int> {
    Set::new(|c: int| exists|i: int| 0 <= i < ranges.len() && (#[trigger] ranges[i]).0 <= c <= ranges[i].1)
}

proof fn lemma_range_text(start: nat, end: nat)
    requires
        start <= usize::MAX,
        end <= usize::MAX,
    ensures
        ({
            let t = range_text(start, end);
            &&& t.len() > 0
            &&& is_digit(t[0])
            &&& is_digit(t.last())
            &&& forall|i: int| 0 <= i < t.len() ==> #[trigger] t[i] != ','
            &&& trim(t) == t
            &&& token_bounds(t) == (decimal(start), decimal(end))
        }),
{
    let a = decimal(start);
    let b = decimal(end);
    let t = range_text(start, end);
    lemma_decimal(start);
    lemma_decimal(end);
    assert forall|i: int| 0 <= i < t.len() implies #[trigger] t[i] != ',' by {
        if i < a.len() {
            assert(t[i] == a[i]);
        } else if i > a.len() {
            assert(t[i] == b[i - a.len() - 1]);
        }
    }
    assert(t[0] == a[0]);
    assert(t.last() == b[b.len() - 1]);
    lemma_trim_keeps(t);
    lemma_char_end_at(t, '-', a.len() as int);
    assert(t.take(a.len() as int) =~= a);
    assert(t.skip(a.len() + 1 as int) =~= b);
    lemma_trim_keeps(a);
    lemma_trim_keeps(b);
}

/// The pieces of a CPU list written from ranges, one per range.
spec fn range_pieces(ranges: Seq<(nat, nat)>) -> Seq<Seq<char>> {
    ranges.map_values(|r: (nat, nat)| range_text(r.0, r.1))
}

proof fn lemma_ranges_text(ranges: Seq<(nat, nat)>)
    requires
        ranges.len() > 0,
        forall|i: int| 0 <= i < ranges.len() ==> (#[trigger] ranges[i]).0 <= usize::MAX && ranges[i].1 <= usize::MAX,
    ensures
        ({
            let t = ranges_text(ranges);
            &&& t.len() > 0
            &&& is_digit(t[0])
            &&& is_digit(t.last())
            &&& split_pieces(t, ',') == range_pieces(ranges)
        }),
    decreases ranges.len(),
{
    let t = ranges_text(ranges);
    let rt = range_text(ranges[0].0, ranges[0].1);
    lemma_range_text(ranges[0].0, ranges[0].1);
    if ranges.len() == 1 {
        lemma_char_end_at(t, ',', t.len() as int);
        assert(range_pieces(ranges) =~= seq![rt]);
    } else {
        let rest = ranges.drop_first();
        assert forall|i: int| 0 <= i < rest.len() implies (#[trigger] rest[i]).0 <= usize::MAX && rest[i].1 <= usize::MAX by {
            assert(rest[i] == ranges[i + 1]);
        }
        lemma_ranges_text(rest);
        let rt2 = ranges_text(rest);
        assert(t == rt + seq![','] + rt2);
        assert forall|i: int| 0 <= i < rt.len() implies t[i] != ',' by {
            assert(t[i] == rt[i]);
        }
        lemma_char_end_at(t, ',', rt.len() as int);
        assert(t.take(rt.len() as int) =~= rt);
        assert(t.skip(rt.len() + 1 as int) =~= rt2);
        assert(range_pieces(ranges) =~= seq![rt] + range_pieces(rest));
        assert(t[0] == rt[0]);
        assert(t.last() == rt2.last());
    }
}

/// Reading the pieces of ranges, each below the set's capacity, adds the
/// CPUs of the ranges.
proof fn lemma_scan_ranges(ranges: Seq<(nat, nat)>, set: Set<int>)
    requires
        forall|i: int| 0 <= i < ranges.len() ==> (#[trigger] ranges[i]).0 <= ranges[i].1 < CPU_SET_CAPACITY,
    ensures
        scan_cpu_list(range_pieces(ranges), set) == Ok::<Set<int>, CpuListError>(set.union(ranges_cpus(ranges))),
    decreases ranges.len(),
{
    if ranges.len() == 0 {
        assert(set.union(ranges_cpus(ranges)) =~= set);
    } else {
        let r = ranges[0];
        let rest = ranges.drop_first();
        assert forall|i: int| 0 <= i < rest.len() implies (#[trigger] rest[i]).0 <= rest[i].1 < CPU_SET_CAPACITY by {
            assert(rest[i] == ranges[i + 1]);
        }
        let ps = range_pieces(ranges);
        assert(ps[0] == range_text(r.0, r.1));
        assert(ps.drop_first() =~= range_pieces(rest));
        lemma_range_text(r.0, r.1);
        lemma_decimal(r.0);
        lemma_decimal(r.1);
        let next = set.union(cpu_range(r.0 as int, r.1 as int));
        lemma_scan_ranges(rest, next);
        assert(next.union(ranges_cpus(rest)) =~= set.union(ranges_cpus(ranges))) by {
            assert forall|c: int| #[trigger] ranges_cpus(ranges).contains(c) implies next.union(ranges_cpus(rest)).contains(c) by {
                let i = choose|i: int| 0 <= i < ranges.len() && (#[trigger] ranges[i]).0 <= c <= ranges[i].1;
                if i > 0 {
                    assert(rest[i - 1] == ranges[i]);
                }
            }
            assert forall|c: int| #[trigger] ranges_cpus(rest).contains(c) implies ranges_cpus(ranges).contains(c) by {
                let i = choose|i: int| 0 <= i < rest.len() && (#[trigger] rest[i]).0 <= c <= rest[i].1;
                assert(ranges[i + 1] == rest[i]);
            }
            assert forall|c: int| #[trigger] cpu_range(r.0 as int, r.1 as int).contains(c) implies ranges_cpus(ranges).contains(c) by {
                assert(ranges[0] == r);
            }
        }
    }
}

/// A kernel CPU list written as ranges `start-end` joined by commas, each
/// with `start <= end` and `end` below [`CPU_SET_CAPACITY`], names exactly
/// the CPUs of its ranges; the empty list names none.
pub proof fn lemma_cpu_list_of_ranges(ranges: Seq<(nat, nat)>)
    requires
        forall|i: int| 0 <= i < ranges.len() ==> (#[trigger] ranges[i]).0 <= ranges[i].1 < CPU_SET_CAPACITY,
    ensures
        cpu_list_of(ranges_text(ranges)) == Ok::<Set<int>, CpuListError>(ranges_cpus(ranges)),
{
    let t = ranges_text(ranges);
    lemma_scan_ranges(ranges, Set::empty());
    assert(Set::<int>::empty().union(ranges_cpus(ranges)) =~= ranges_cpus(ranges));
    if ranges.len() == 0 {
        assert(trim(t) =~= Seq::<char>::empty());
        let ps = split_pieces(trim(t), ',');
        assert(ps =~= seq![Seq::<char>::empty()]);
        assert(ps.drop_first() =~= Seq::<Seq<char>>::empty());
        assert(range_pieces(ranges) =~= Seq::<Seq<char>>::empty());
    } else {
        lemma_ranges_text(ranges);
        lemma_trim_keeps(t);
    }
}

} // verus!
