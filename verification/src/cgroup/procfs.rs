//! What the daemon reads of a process in `/proc`: its parent, its command
//! and its cgroup. The daemon reads the files.
use crate::text::{
    chars_of, line_at, lines, parse_i32_in, parse_signed, starts_with, starts_with_in, substring,
    trim, trim_range,
};
use vstd::prelude::*;

verus! {

/// Why the parent pid could not be read from a `status` file.
#[derive(Debug, Clone, Copy, PartialEq, Eq, Structural)]
pub enum PpidError {
    /// The `PPid:` value is not a pid.
    InvalidValue,
    /// There is no `PPid:` line.
    NotFound,
}

pub open spec fn ppid_prefix() -> Seq<char> {
    seq!['P', 'P', 'i', 'd', ':']
}

/// The text after `PPid:` on the first line that starts with it.
pub open spec fn ppid_field(ls: Seq<Seq<char>>) -> Option<Seq<char>>
    decreases ls.len(),
{
    if ls.len() == 0 {
        None
    } else if starts_with(ls[0], ppid_prefix()) {
        Some(ls[0].skip(ppid_prefix().len() as int))
    } else {
        ppid_field(ls.drop_first())
    }
}

/// The parent pid a `status` file gives.
pub open spec fn ppid_of(status: Seq<char>) -> Result<i32, PpidError> {
    match ppid_field(lines(status)) {
        None => Err(PpidError::NotFound),
        Some(v) => match parse_signed(trim(v), i32::MIN as int, i32::MAX as int) {
            Some(x) => Ok(x as i32),
            None => Err(PpidError::InvalidValue),
        },
    }
}

/// The parent pid from the text of `/proc/<pid>/status`.
pub fn parse_ppid(status: &str) -> (r: Result<i32, PpidError>)
    ensures
        r == ppid_of(status@),
{
    let v = chars_of(status);
    let n = v.len();
    let prefix = vec!['P', 'P', 'i', 'd', ':'];
    let mut pos: usize = 0;
    assert(v@.subrange(0, n as int) =~= v@);
    while pos < n
        invariant
            pos <= n == v@.len(),
            v@ == status@,
            prefix@ == ppid_prefix(),
            ppid_field(lines(v@)) == ppid_field(lines(v@.subrange(pos as int, n as int))),
        decreases n - pos,
    {
        let (b, next) = line_at(&v, pos, n);
        let ghost line = v@.subrange(pos as int, b as int);
        proof {
            let ls = lines(v@.subrange(pos as int, n as int));
            assert(ls[0] == line);
            assert(ls.drop_first() =~= lines(v@.subrange(next as int, n as int)));
        }
        if starts_with_in(&v, pos, b, &prefix) {
            let (ta, tb) = trim_range(&v, pos + 5, b);
            proof {
                assert(line.skip(5) =~= v@.subrange(pos + 5, b as int));
            }
            return match parse_i32_in(&v, ta, tb) {
                Some(x) => Ok(x),
                None => Err(PpidError::InvalidValue),
            };
        }
        pos = next;
    }
    assert(lines(v@.subrange(n as int, n as int)) =~= Seq::<Seq<char>>::empty());
    Err(PpidError::NotFound)
}

/// A process's command from the text of `/proc/<pid>/comm`: the text
/// trimmed.
pub fn process_comm(comm: &str) -> (r: String)
    ensures
        r@ == trim(comm@),
{
    let v = chars_of(comm);
    let (a, b) = trim_range(&v, 0, v.len());
    proof {
        assert(v@.subrange(0, v@.len() as int) =~= comm@);
    }
    substring(comm, a, b)
}

/// The command of the process that ends the walk up the process tree.
pub open spec fn is_systemd(comm: Seq<char>) -> bool {
    comm == seq!['s', 'y', 's', 't', 'e', 'm', 'd']
}

/// What the walk up the process tree needs next.
#[derive(Debug, Clone, Copy, PartialEq, Eq, Structural)]
pub enum WalkStep {
    /// The command of this pid.
    ReadComm(i32),
    /// The parent of this pid.
    ReadPpid(i32),
    /// The walk is over.
    Done,
}

/// A walk up the process tree from a pid, collecting the pids up to (and
/// without) the first `systemd` process or pid 1. The daemon reads what
/// [`AncestorWalk::next_step`] asks for and hands it back.
pub struct AncestorWalk {
    pids: Vec<i32>,
    current: i32,
    step: WalkStep,
}

impl AncestorWalk {
    pub closed spec fn spec_pids(&self) -> Seq<i32> {
        self.pids@
    }

    pub closed spec fn spec_step(&self) -> WalkStep {
        self.step
    }

    /// A walk from `pid`; one that starts at or below pid 1 is over at once.
    pub fn start(pid: i32) -> (r: Self)
        ensures
            r.spec_pids().len() == 0,
            r.spec_step() == if pid > 1 {
                WalkStep::ReadComm(pid)
            } else {
                WalkStep::Done
            },
    {
        let step = if pid > 1 {
            WalkStep::ReadComm(pid)
        } else {
            WalkStep::Done
        };
        AncestorWalk { pids: Vec::new(), current: pid, step }
    }

    pub fn next_step(&self) -> (r: WalkStep)
        ensures
            r == self.spec_step(),
    {
        self.step
    }

    /// The command of the pid asked for: the walk ends at `systemd`;
    /// otherwise the pid is collected and its parent is asked for.
    pub fn record_comm(&mut self, comm: &str)
        requires
            old(self).spec_step() is ReadComm,
        ensures
            old(self).spec_step() matches WalkStep::ReadComm(pid) && {
                &&& is_systemd(comm@) ==> final(self).spec_step() == WalkStep::Done
                    && final(self).spec_pids() == old(self).spec_pids()
                &&& !is_systemd(comm@) ==> final(self).spec_step() == WalkStep::ReadPpid(pid)
                    && final(self).spec_pids() == old(self).spec_pids().push(pid)
            },
    {
        let pid = match self.step {
            WalkStep::ReadComm(p) => p,
            _ => {
                return ;
            },
        };
        let systemd = "systemd";
        proof {
            reveal_strlit("systemd");
            assert(systemd@ =~= seq!['s', 'y', 's', 't', 'e', 'm', 'd']);
        }
        if crate::text::str_eq(comm, systemd) {
            self.step = WalkStep::Done;
        } else {
            self.pids.push(pid);
            self.step = WalkStep::ReadPpid(pid);
        }
    }

    /// The parent of the pid asked for: the walk goes on from it while it is
    /// above pid 1.
    pub fn record_ppid(&mut self, ppid: i32)
        requires
            old(self).spec_step() is ReadPpid,
        ensures
            final(self).spec_pids() == old(self).spec_pids(),
            final(self).spec_step() == if ppid > 1 {
                WalkStep::ReadComm(ppid)
            } else {
                WalkStep::Done
            },
    {
        self.current = ppid;
        self.step = if ppid > 1 {
            WalkStep::ReadComm(ppid)
        } else {
            WalkStep::Done
        };
    }

    /// The pids collected so far, from the first one up.
    pub fn pids(&self) -> (r: &Vec<i32>)
        ensures
            r@ == self.spec_pids(),
    {
        &self.pids
    }
}

} // verus!
