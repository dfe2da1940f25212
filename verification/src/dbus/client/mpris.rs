//! Media players on the session bus.
use crate::text::str_eq;
use vstd::prelude::*;

verus! {

pub const MPRIS_PREFIX: &'static str = "org.mpris.MediaPlayer2.";

pub const MPRIS_PLAYER_PATH: &'static str = "/org/mpris/MediaPlayer2";

pub const MPRIS_PLAYER_INTERFACE: &'static str = "org.mpris.MediaPlayer2.Player";

/// `name` begins with `prefix`.
pub open spec fn has_prefix(name: Seq<char>, prefix: Seq<char>) -> bool {
    prefix.len() <= name.len() && name.subrange(0, prefix.len() as int) == prefix
}

fn starts_with_str(name: &str, prefix: &str) -> (r: bool)
    ensures
        r == has_prefix(name@, prefix@),
{
    let n = crate::text::chars_of(name);
    let p = crate::text::chars_of(prefix);
    if p.len() > n.len() {
        return false;
    }
    let mut i: usize = 0;
    while i < p.len()
        invariant
            p@.len() <= n@.len(),
            i <= p@.len(),
            n@ == name@,
            p@ == prefix@,
            forall|j: int| 0 <= j < i ==> n@[j] == p@[j],
        decreases p@.len() - i,
    {
        if n[i] != p[i] {
            return false;
        }
        i = i + 1;
    }
    assert(name@.subrange(0, prefix@.len() as int) =~= prefix@);
    true
}

/// The bus names, in order, that belong to MPRIS media players.
pub fn mpris_players(names: Vec<String>) -> (r: Vec<String>)
    ensures
        r@.map_values(|s: String| s@) == names@.map_values(|s: String| s@).filter(
            |n: Seq<char>| has_prefix(n, MPRIS_PREFIX@),
        ),
{
    let mut r: Vec<String> = Vec::new();
    let ghost all = names@.map_values(|s: String| s@);
    let ghost keep = |n: Seq<char>| has_prefix(n, MPRIS_PREFIX@);
    let mut i: usize = 0;
    while i < names.len()
        invariant
            i <= names@.len(),
            all == names@.map_values(|s: String| s@),
            keep == (|n: Seq<char>| has_prefix(n, MPRIS_PREFIX@)),
            r@.map_values(|s: String| s@) == all.take(i as int).filter(keep),
        decreases names@.len() - i,
    {
        let ghost before = r@;
        proof {
            assert(all.take(i + 1).drop_last() =~= all.take(i as int));
            assert(all.take(i + 1).last() == names@[i as int]@);
            reveal(Seq::filter);
        }
        if starts_with_str(names[i].as_str(), MPRIS_PREFIX) {
            r.push(names[i].clone());
            assert(r@.map_values(|s: String| s@) =~= before.map_values(|s: String| s@).push(
                names@[i as int]@,
            ));
        }
        i = i + 1;
    }
    assert(all.take(names@.len() as int) =~= all);
    r
}

/// A player plays when its `PlaybackStatus` is "Playing"; "Paused" and
/// "Stopped" both mean it does not.
pub fn is_playing_status(status: &str) -> (r: bool)
    ensures
        r == (status@ == "Playing"@),
{
    str_eq(status, "Playing")
}

/// A process id as the bus reports it (an unsigned 32-bit number), read
/// as the system's signed `pid_t`: the same 32 bits.
pub fn pid_from_bus(pid: u32) -> (r: i32)
    ensures
        r == (if pid < 0x8000_0000 {
            pid as int
        } else {
            pid - 0x1_0000_0000
        }),
{
    if pid < 0x8000_0000 {
        pid as i32
    } else {
        let low: u32 = pid - 0x8000_0000;
        (low as i32) - 0x7fff_ffff - 1
    }
}

} // verus!
