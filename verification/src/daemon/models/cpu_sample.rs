//! One reading of the CPU counters of a window group's units.
use crate::cgroup::UnitPath;
use crate::table::{entries_map, Table};
use std::time::{Duration, Instant};
use vstd::prelude::*;

verus! {

#[verifier::external_type_specification]
#[verifier::external_body]
pub struct ExInstant(Instant);

/// `std::time::Instant::now`. It reads the clock; nothing is stated of
/// what it returns.
#[verifier::external_body]
fn instant_now() -> (r: Instant) {
    Instant::now()
}

/// `Instant::checked_duration_since`: the time from `earlier` to `later`,
/// `None` when `earlier` is the later one. Instants are opaque here, so
/// nothing is stated of the result.
#[verifier::external_body]
fn checked_duration_since(later: &Instant, earlier: &Instant) -> (r: Option<Duration>) {
    later.checked_duration_since(*earlier)
}

/// `Duration::as_micros`: the whole microseconds of a duration. Durations
/// are opaque here, so nothing is stated of the result.
#[verifier::external_body]
fn duration_micros(d: &Duration) -> (r: u128) {
    d.as_micros()
}

/// `a - b`, or 0 when `b` is larger.
pub open spec fn saturating_delta(a: u64, b: u64) -> u64 {
    if a >= b {
        (a - b) as u64
    } else {
        0
    }
}

/// The throttle counters a list of `(unit, counter)` pairs gives: a unit
/// listed twice keeps its last counter.
pub open spec fn throttle_map(pairs: Seq<(UnitPath, u64)>) -> Map<Seq<char>, u64> {
    entries_map(pairs.map_values(|p: (UnitPath, u64)| (p.0@, p.1)))
}

/// `r` is the largest growth of a unit's throttle counter between `prev`
/// and `cur`, over the units read in both, or 0 when there is none.
pub open spec fn is_max_throttle_delta(
    cur: Map<Seq<char>, u64>,
    prev: Map<Seq<char>, u64>,
    r: u64,
) -> bool {
    &&& forall|k: Seq<char>|
        cur.dom().contains(k) && prev.dom().contains(k) ==> #[trigger] saturating_delta(
            cur[k],
            prev[k],
        ) <= r
    &&& (r == 0 || exists|k: Seq<char>|
        cur.dom().contains(k) && prev.dom().contains(k) && #[trigger] saturating_delta(
            cur[k],
            prev[k],
        ) == r)
}

/// What changed between two samples: the time between them and the
/// growth of the counters.
#[derive(Debug, Clone, Copy, PartialEq, Eq)]
pub struct CpuDelta {
    /// Microseconds between the samples; never 0.
    pub elapsed_usec: u128,
    /// Growth of the usage sum.
    pub usage_usec: u64,
    /// Largest growth of one unit's throttle counter.
    pub throttle_usec: u64,
}

pub struct CpuSample {
    sample_time: Instant,
    /// CPU usage sum of all units
    usage_usec: u64,
    /// 5 units at 0.2 throttle
    /// do not equal 1 unit at 1 throttle
    throttle_usecs: Table<u64>,
}

impl CpuSample {
    pub closed spec fn wf(&self) -> bool {
        self.throttle_usecs.wf()
    }

    pub closed spec fn spec_usage(&self) -> u64 {
        self.usage_usec
    }

    /// Throttle counter by unit path.
    pub closed spec fn spec_throttle(&self) -> Map<Seq<char>, u64> {
        self.throttle_usecs.view()
    }

    /// A sample taken now.
    pub fn now(usage_usec: u64, throttle_usecs: Vec<(UnitPath, u64)>) -> (r: Self)
        ensures
            r.wf(),
            r.spec_usage() == usage_usec,
            r.spec_throttle() == throttle_map(throttle_usecs@),
    {
        let mut table: Table<u64> = Table::new();
        let ghost s = throttle_usecs@.map_values(|p: (UnitPath, u64)| (p.0@, p.1));
        let mut i: usize = 0;
        while i < throttle_usecs.len()
            invariant
                i <= throttle_usecs@.len(),
                s == throttle_usecs@.map_values(|p: (UnitPath, u64)| (p.0@, p.1)),
                table.wf(),
                table.view() == entries_map(s.take(i as int)),
            decreases throttle_usecs@.len() - i,
        {
            let (path, counter) = (&throttle_usecs[i].0, throttle_usecs[i].1);
            table.insert(path.to_string(), counter);
            proof {
                assert(s.take(i + 1).drop_last() =~= s.take(i as int));
                assert(s.take(i + 1).last() == (path@, counter));
            }
            i = i + 1;
        }
        proof {
            assert(s.take(i as int) =~= s);
        }
        CpuSample { sample_time: instant_now(), usage_usec, throttle_usecs: table }
    }

    /// Growth of the usage sum since `prev` (0 if it went down).
    pub fn usage_delta(&self, prev: &CpuSample) -> (r: u64)
        ensures
            r == saturating_delta(self.spec_usage(), prev.spec_usage()),
    {
        if self.usage_usec >= prev.usage_usec {
            self.usage_usec - prev.usage_usec
        } else {
            0
        }
    }

    /// Largest growth of one unit's throttle counter since `prev`, over
    /// the units read in both samples; 0 when there is none.
    pub fn throttle_delta(&self, prev: &CpuSample) -> (r: u64)
        requires
            self.wf(),
            prev.wf(),
        ensures
            is_max_throttle_delta(self.spec_throttle(), prev.spec_throttle(), r),
    {
        let keys = self.throttle_usecs.keys();
        let ghost cur = self.spec_throttle();
        let ghost old = prev.spec_throttle();
        let mut best: u64 = 0;
        let mut i: usize = 0;
        while i < keys.len()
            invariant
                i <= keys@.len(),
                self.wf(),
                prev.wf(),
                cur == self.spec_throttle(),
                old == prev.spec_throttle(),
                forall|k: Seq<char>|
                    cur.dom().contains(k) <==> exists|j: int|
                        0 <= j < keys@.len() && (#[trigger] keys@[j])@ == k,
                forall|j: int|
                    0 <= j < i && #[trigger] old.dom().contains(keys@[j]@) ==> saturating_delta(
                        cur[keys@[j]@],
                        old[keys@[j]@],
                    ) <= best,
                best == 0 || exists|k: Seq<char>|
                    cur.dom().contains(k) && old.dom().contains(k) && #[trigger] saturating_delta(
                        cur[k],
                        old[k],
                    ) == best,
            decreases keys@.len() - i,
        {
            let key = keys[i].as_str();
            proof {
                assert(cur.dom().contains(keys@[i as int]@));
            }
            match (self.throttle_usecs.get(key), prev.throttle_usecs.get(key)) {
                (Some(now), Some(before)) => {
                    let d = if *now >= *before {
                        *now - *before
                    } else {
                        0
                    };
                    assert(d == saturating_delta(cur[key@], old[key@]));
                    if d > best {
                        best = d;
                    }
                },
                _ => {},
            }
            i = i + 1;
        }
        proof {
            assert forall|k: Seq<char>|
                cur.dom().contains(k) && old.dom().contains(k) implies #[trigger] saturating_delta(
                cur[k],
                old[k],
            ) <= best by {
                let j = choose|j: int| 0 <= j < keys@.len() && (#[trigger] keys@[j])@ == k;
                assert(old.dom().contains(keys@[j]@));
            }
        }
        best
    }

    /// Microseconds from `prev` to this sample, when this one was taken
    /// after it. Read from the clock's instants: nothing is stated of it.
    pub fn elapsed_usec(&self, prev: &CpuSample) -> (r: Option<u128>) {
        match checked_duration_since(&self.sample_time, &prev.sample_time) {
            Some(d) => Some(duration_micros(&d)),
            None => None,
        }
    }

    /// The change since `prev`, given the microseconds from `prev` to this
    /// sample as the clock read them (`None` when this one is not later):
    /// `None` when no time passed; else the time and the growth of the
    /// counters.
    pub fn delta_after(&self, prev: &CpuSample, elapsed_usec: Option<u128>) -> (r: Option<CpuDelta>)
        requires
            self.wf(),
            prev.wf(),
        ensures
            match elapsed_usec {
                Some(e) if e > 0 => r matches Some(d) && {
                    &&& d.elapsed_usec == e
                    &&& d.usage_usec == saturating_delta(self.spec_usage(), prev.spec_usage())
                    &&& is_max_throttle_delta(
                        self.spec_throttle(),
                        prev.spec_throttle(),
                        d.throttle_usec,
                    )
                },
                _ => r is None,
            },
    {
        match elapsed_usec {
            Some(elapsed) => {
                if elapsed == 0 {
                    None
                } else {
                    Some(
                        CpuDelta {
                            elapsed_usec: elapsed,
                            usage_usec: self.usage_delta(prev),
                            throttle_usec: self.throttle_delta(prev),
                        },
                    )
                }
            },
            None => None,
        }
    }

    /// The change since `prev`: `None` when no time passed between the
    /// samples as the clock reads them; else the time and the growth of
    /// the counters.
    pub fn delta_since(&self, prev: &CpuSample) -> (r: Option<CpuDelta>)
        requires
            self.wf(),
            prev.wf(),
        ensures
            match r {
                Some(d) => {
                    &&& d.elapsed_usec > 0
                    &&& d.usage_usec == saturating_delta(self.spec_usage(), prev.spec_usage())
                    &&& is_max_throttle_delta(
                        self.spec_throttle(),
                        prev.spec_throttle(),
                        d.throttle_usec,
                    )
                },
                None => true,
            },
    {
        self.delta_after(prev, self.elapsed_usec(prev))
    }
}

} // verus!
