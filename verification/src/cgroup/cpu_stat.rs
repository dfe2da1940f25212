//! Reading of a cgroup's `cpu.stat`.
use crate::text::{
    char_end, char_end_in, chars_of, equals_in, lemma_char_end, line_content_end, lines,
    parse_unsigned, parse_unsigned_in, strip_cr, trim, trim_range,
};
use vstd::prelude::*;

verus! {

#[derive(Debug, Clone, Copy)]
pub struct CpuStat {
    pub usage_usec: u64,
    pub throttled_usec: u64,
}

/// Why the text of a `cpu.stat` file was refused.
#[derive(Debug, Clone, Copy, PartialEq, Eq)]
pub enum CpuStatError {
    /// A `usage_usec` or `throttled_usec` value is not a `u64`.
    InvalidValue,
    /// There is no `usage_usec` line.
    MissingUsage,
}

pub open spec fn usage_key() -> Seq<char> {
    seq!['u', 's', 'a', 'g', 'e', '_', 'u', 's', 'e', 'c']
}

pub open spec fn throttled_key() -> Seq<char> {
    seq!['t', 'h', 'r', 'o', 't', 't', 'l', 'e', 'd', '_', 'u', 's', 'e', 'c']
}

/// A line split at its first space; the value is empty when there is none.
pub open spec fn key_value(line: Seq<char>) -> (Seq<char>, Seq<char>) {
    let e = char_end(line, ' ');
    if e < line.len() {
        (line.take(e as int), line.skip(e + 1 as int))
    } else {
        (line, Seq::empty())
    }
}

/// The value of a line, parsed as a `u64` after trimming.
pub open spec fn stat_value(value: Seq<char>) -> Option<int> {
    parse_unsigned(trim(value), u64::MAX as int)
}

/// The lines `ls` read in order, from the usage and throttling seen so far:
/// the last `usage_usec` and `throttled_usec` lines win, other lines are
/// ignored, and a value that does not parse refuses the whole text.
pub open spec fn scan_cpu_stat(ls: Seq<Seq<char>>, usage: Option<u64>, throttled: u64) -> Result<
    (Option<u64>, u64),
    CpuStatError,
>
    decreases ls.len(),
{
    if ls.len() == 0 {
        Ok((usage, throttled))
    } else {
        let (key, value) = key_value(ls[0]);
        if key == usage_key() {
            match stat_value(value) {
                Some(x) => scan_cpu_stat(ls.drop_first(), Some(x as u64), throttled),
                None => Err(CpuStatError::InvalidValue),
            }
        } else if key == throttled_key() {
            match stat_value(value) {
                Some(x) => scan_cpu_stat(ls.drop_first(), usage, x as u64),
                None => Err(CpuStatError::InvalidValue),
            }
        } else {
            scan_cpu_stat(ls.drop_first(), usage, throttled)
        }
    }
}

/// What `parse_cpu_stat` gives for the text `content`.
pub open spec fn cpu_stat_of(content: Seq<char>) -> Result<CpuStat, CpuStatError> {
    match scan_cpu_stat(lines(content), None, 0) {
        Err(e) => Err(e),
        Ok((None, _)) => Err(CpuStatError::MissingUsage),
        Ok((Some(u), t)) => Ok(CpuStat { usage_usec: u, throttled_usec: t }),
    }
}

/// `throttled_usec` may be absent when the bandwidth controller never ran;
/// treat it as zero. `usage_usec` is mandatory.
pub fn parse_cpu_stat(content: &str) -> (r: Result<CpuStat, CpuStatError>)
    ensures
        r == cpu_stat_of(content@),
{
    let v = chars_of(content);
    let n = v.len();
    let usage_k = vec!['u', 's', 'a', 'g', 'e', '_', 'u', 's', 'e', 'c'];
    let throttled_k = vec!['t', 'h', 'r', 'o', 't', 't', 'l', 'e', 'd', '_', 'u', 's', 'e', 'c'];
    let mut usage: Option<u64> = None;
    let mut throttled: u64 = 0;
    let mut pos: usize = 0;
    assert(v@.subrange(0, n as int) =~= v@);
    while pos < n
        invariant
            pos <= n == v@.len(),
            v@ == content@,
            usage_k@ == usage_key(),
            throttled_k@ == throttled_key(),
            scan_cpu_stat(lines(v@), None, 0) == scan_cpu_stat(
                lines(v@.subrange(pos as int, n as int)),
                usage,
                throttled,
            ),
        decreases n - pos,
    {
        let ghost rem = v@.subrange(pos as int, n as int);
        let e = char_end_in(&v, pos, n, '\n');
        let b = line_content_end(&v, pos, e);
        let next = if e < n {
            e + 1
        } else {
            n
        };
        proof {
            lemma_char_end(rem, '\n');
            let line = strip_cr(v@.subrange(pos as int, e as int));
            if e < n {
                assert(rem.take(e - pos) =~= v@.subrange(pos as int, e as int));
                assert(rem.skip(e - pos + 1) =~= v@.subrange(next as int, n as int));
            } else {
                assert(rem =~= v@.subrange(pos as int, e as int));
                assert(v@.subrange(next as int, n as int) =~= Seq::<char>::empty());
            }
            assert(lines(rem) =~= seq![line] + lines(v@.subrange(next as int, n as int)));
            assert((seq![line] + lines(v@.subrange(next as int, n as int))).drop_first()
                =~= lines(v@.subrange(next as int, n as int)));
        }
        let ghost line = v@.subrange(pos as int, b as int);
        let sp = char_end_in(&v, pos, b, ' ');
        let (vlo, vhi) = if sp < b {
            (sp + 1, b)
        } else {
            (b, b)
        };
        proof {
            lemma_char_end(line, ' ');
            if sp < b {
                assert(line.take(sp - pos) =~= v@.subrange(pos as int, sp as int));
                assert(line.skip(sp - pos + 1) =~= v@.subrange(vlo as int, vhi as int));
            } else {
                assert(line =~= v@.subrange(pos as int, sp as int));
                assert(v@.subrange(vlo as int, vhi as int) =~= Seq::<char>::empty());
            }
            assert(key_value(line) == (v@.subrange(pos as int, sp as int), v@.subrange(
                vlo as int,
                vhi as int,
            )));
        }
        if equals_in(&v, pos, sp, &usage_k) {
            let (ta, tb) = trim_range(&v, vlo, vhi);
            match parse_unsigned_in(&v, ta, tb, 0xffff_ffff_ffff_ffff) {
                Some(x) => {
                    usage = Some(x);
                },
                None => {
                    return Err(CpuStatError::InvalidValue);
                },
            }
        } else if equals_in(&v, pos, sp, &throttled_k) {
            let (ta, tb) = trim_range(&v, vlo, vhi);
            match parse_unsigned_in(&v, ta, tb, 0xffff_ffff_ffff_ffff) {
                Some(x) => {
                    throttled = x;
                },
                None => {
                    return Err(CpuStatError::InvalidValue);
                },
            }
        }
        pos = next;
    }
    assert(lines(v@.subrange(n as int, n as int)) =~= Seq::<Seq<char>>::empty());
    match usage {
        Some(u) => Ok(CpuStat { usage_usec: u, throttled_usec: throttled }),
        None => Err(CpuStatError::MissingUsage),
    }
}

} // verus!
