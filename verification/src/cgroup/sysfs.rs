//! What the daemon reads of a cgroup in `/sys/fs/cgroup`. The daemon walks
//! the directories and reads the files.
use crate::text::{chars_of, line_at, lines, parse_i32_in, parse_signed, trim, trim_range};
use vstd::prelude::*;

verus! {

/// The pids that the lines of a `cgroup.procs` file give: each line
/// trimmed and read as a pid, lines that are not a pid skipped.
pub open spec fn pids_of_lines(ls: Seq<Seq<char>>) -> Seq<i32>
    decreases ls.len(),
{
    if ls.len() == 0 {
        Seq::empty()
    } else {
        let rest = pids_of_lines(ls.drop_first());
        match parse_signed(trim(ls[0]), i32::MIN as int, i32::MAX as int) {
            Some(x) => seq![x as i32] + rest,
            None => rest,
        }
    }
}

/// The pids listed in the text of a `cgroup.procs` file, in order.
pub fn parse_procs(content: &str) -> (r: Vec<i32>)
    ensures
        r@ == pids_of_lines(lines(content@)),
{
    let v = chars_of(content);
    let n = v.len();
    let mut r: Vec<i32> = Vec::new();
    let mut pos: usize = 0;
    assert(v@.subrange(0, n as int) =~= v@);
    assert(r@ + pids_of_lines(lines(v@)) =~= pids_of_lines(lines(v@)));
    while pos < n
        invariant
            pos <= n == v@.len(),
            v@ == content@,
            pids_of_lines(lines(v@)) == r@ + pids_of_lines(lines(v@.subrange(pos as int, n as int))),
        decreases n - pos,
    {
        let (b, next) = line_at(&v, pos, n);
        let ghost rest = lines(v@.subrange(next as int, n as int));
        proof {
            let ls = lines(v@.subrange(pos as int, n as int));
            assert(ls[0] == v@.subrange(pos as int, b as int));
            assert(ls.drop_first() =~= rest);
        }
        let (ta, tb) = trim_range(&v, pos, b);
        match parse_i32_in(&v, ta, tb) {
            Some(x) => {
                let ghost before = r@;
                r.push(x);
                assert(before + (seq![x] + pids_of_lines(rest)) =~= r@ + pids_of_lines(rest));
            },
            None => {},
        }
        pos = next;
    }
    assert(lines(v@.subrange(n as int, n as int)) =~= Seq::<Seq<char>>::empty());
    assert(r@ + pids_of_lines(Seq::<Seq<char>>::empty()) =~= r@);
    r
}

} // verus!
