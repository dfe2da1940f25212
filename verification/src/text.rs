//! Character-level text handling shared by the parsers of this crate.
//!
//! Text is handled as a `Vec<char>` together with a half-open range
//! `[lo, hi)`; the mathematical model of such a slice is the sequence
//! `v@.subrange(lo, hi)`.
use vstd::prelude::*;
use vstd::string::*;

verus! {

/// Unicode `White_Space`, the set that `char::is_whitespace` and
/// `str::trim` use.
pub open spec fn is_ws(c: char) -> bool {
    ||| '\u{9}' <= c <= '\u{d}'
    ||| c == ' '
    ||| c == '\u{85}'
    ||| c == '\u{a0}'
    ||| c == '\u{1680}'
    ||| '\u{2000}' <= c <= '\u{200a}'
    ||| c == '\u{2028}'
    ||| c == '\u{2029}'
    ||| c == '\u{202f}'
    ||| c == '\u{205f}'
    ||| c == '\u{3000}'
}

pub fn is_whitespace(c: char) -> (b: bool)
    ensures
        b == is_ws(c),
{
    ('\u{9}' <= c && c <= '\u{d}') || c == ' ' || c == '\u{85}' || c == '\u{a0}' || c
        == '\u{1680}' || ('\u{2000}' <= c && c <= '\u{200a}') || c == '\u{2028}' || c
        == '\u{2029}' || c == '\u{202f}' || c == '\u{205f}' || c == '\u{3000}'
}

/// `s` without its leading white space.
pub open spec fn trim_start(s: Seq<char>) -> Seq<char>
    decreases s.len(),
{
    if s.len() > 0 && is_ws(s[0]) {
        trim_start(s.drop_first())
    } else {
        s
    }
}

/// `s` without its trailing white space.
pub open spec fn trim_end(s: Seq<char>) -> Seq<char>
    decreases s.len(),
{
    if s.len() > 0 && is_ws(s.last()) {
        trim_end(s.drop_last())
    } else {
        s
    }
}

/// What `str::trim` gives back.
pub open spec fn trim(s: Seq<char>) -> Seq<char> {
    trim_end(trim_start(s))
}

/// The characters of `s`, in order.
pub fn chars_of(s: &str) -> (v: Vec<char>)
    ensures
        v@ == s@,
{
    let mut v: Vec<char> = Vec::new();
    for c in it: s.chars()
        invariant
            it.seq() == s@,
            v@ == it.seq().take(it.index() as int),
    {
        v.push(c);
    }
    v
}

/// The owned text of the characters `[a, b)` of `s`.
pub fn substring(s: &str, a: usize, b: usize) -> (r: String)
    requires
        a <= b <= s@.len(),
    ensures
        r@ == s@.subrange(a as int, b as int),
{
    s.substring_char(a, b).to_owned()
}

/// Bounds of the trimmed part of `v[lo..hi]`.
pub fn trim_range(v: &Vec<char>, lo: usize, hi: usize) -> (r: (usize, usize))
    requires
        lo <= hi <= v@.len(),
    ensures
        lo <= r.0 <= r.1 <= hi,
        v@.subrange(r.0 as int, r.1 as int) == trim(v@.subrange(lo as int, hi as int)),
{
    let mut a = lo;
    while a < hi && is_whitespace(v[a])
        invariant
            lo <= a <= hi <= v@.len(),
            trim_start(v@.subrange(lo as int, hi as int)) == trim_start(
                v@.subrange(a as int, hi as int),
            ),
        decreases hi - a,
    {
        assert(v@.subrange(a as int, hi as int).drop_first() =~= v@.subrange(
            a + 1,
            hi as int,
        ));
        a = a + 1;
    }
    proof {
        if a < hi {
            assert(v@.subrange(a as int, hi as int)[0] == v@[a as int]);
        }
    }
    let mut b = hi;
    while b > a && is_whitespace(v[b - 1])
        invariant
            lo <= a <= b <= hi <= v@.len(),
            trim_start(v@.subrange(lo as int, hi as int)) == v@.subrange(a as int, hi as int),
            trim(v@.subrange(lo as int, hi as int)) == trim_end(v@.subrange(a as int, b as int)),
        decreases b - a,
    {
        assert(v@.subrange(a as int, b as int).drop_last() =~= v@.subrange(
            a as int,
            b - 1,
        ));
        b = b - 1;
    }
    proof {
        if b > a {
            assert(v@.subrange(a as int, b as int).last() == v@[b - 1]);
        }
    }
    (a, b)
}

/// `p` occurs in `s` at position `i`.
pub open spec fn occurs_at(s: Seq<char>, p: Seq<char>, i: int) -> bool {
    0 <= i && i + p.len() <= s.len() && s.subrange(i, i + p.len()) == p
}

/// The first position at or after `i` where `p` occurs in `s`.
pub open spec fn find_from(s: Seq<char>, p: Seq<char>, i: int) -> Option<int>
    decreases s.len() + 1 - i,
{
    if i < 0 || i + p.len() > s.len() {
        None
    } else if occurs_at(s, p, i) {
        Some(i)
    } else {
        find_from(s, p, i + 1)
    }
}

/// The first position where `p` occurs in `s`, as `str::find` gives it.
pub open spec fn find(s: Seq<char>, p: Seq<char>) -> Option<int> {
    find_from(s, p, 0)
}

/// `p` occurs somewhere in `s`.
pub open spec fn contains(s: Seq<char>, p: Seq<char>) -> bool {
    exists|i: int| occurs_at(s, p, i)
}

proof fn lemma_find_from_found(s: Seq<char>, p: Seq<char>, i: int)
    requires
        0 <= i,
    ensures
        find_from(s, p, i) matches Some(k) ==> i <= k && occurs_at(s, p, k) && forall|j: int|
            i <= j < k ==> !occurs_at(s, p, j),
        find_from(s, p, i) is None ==> forall|j: int| i <= j ==> !occurs_at(s, p, j),
    decreases s.len() + 1 - i,
{
    if i + p.len() > s.len() {
    } else if occurs_at(s, p, i) {
    } else {
        lemma_find_from_found(s, p, i + 1);
    }
}

/// What is known of `find`: the position of the first occurrence, or no
/// occurrence at all.
pub proof fn lemma_find(s: Seq<char>, p: Seq<char>)
    ensures
        find(s, p) matches Some(k) ==> occurs_at(s, p, k) && forall|j: int|
            0 <= j < k ==> !occurs_at(s, p, j),
        find(s, p) is None <==> !contains(s, p),
{
    lemma_find_from_found(s, p, 0);
    if find(s, p) is None {
        assert forall|j: int| !occurs_at(s, p, j) by {
            if j >= 0 {
            }
        }
    } else {
        let k = find(s, p)->0;
        assert(occurs_at(s, p, k));
    }
}

/// Does `p` occur in `v[lo..hi]` at position `i` of `v`?
pub fn matches_at(v: &Vec<char>, lo: usize, hi: usize, p: &Vec<char>, i: usize) -> (b: bool)
    requires
        lo <= i <= hi,
        hi <= v@.len(),
    ensures
        b == occurs_at(v@.subrange(lo as int, hi as int), p@, i - lo),
{
    if p.len() > hi - i {
        return false;
    }
    let mut k: usize = 0;
    while k < p.len()
        invariant
            lo <= i,
            i + p@.len() <= hi <= v@.len(),
            lo <= hi,
            k <= p@.len(),
            forall|j: int| 0 <= j < k ==> v@[i + j] == p@[j],
        decreases p@.len() - k,
    {
        if v[i + k] != p[k] {
            assert(v@.subrange(lo as int, hi as int).subrange(
                i - lo,
                i - lo + p@.len(),
            )[k as int] == v@[i + k]);
            return false;
        }
        k = k + 1;
    }
    assert(v@.subrange(lo as int, hi as int).subrange(i - lo, i - lo + p@.len()) =~= p@);
    true
}

/// The first occurrence of `p` in `v[lo..hi]`, as a position of `v`.
pub fn find_in(v: &Vec<char>, lo: usize, hi: usize, p: &Vec<char>) -> (r: Option<usize>)
    requires
        lo <= hi <= v@.len(),
    ensures
        match find(v@.subrange(lo as int, hi as int), p@) {
            Some(k) => r == Some((lo + k) as usize),
            None => r is None,
        },
{
    let ghost s = v@.subrange(lo as int, hi as int);
    if p.len() > hi - lo {
        return None;
    }
    if p.len() == 0 {
        assert(s.subrange(0, 0) =~= p@);
        return Some(lo);
    }
    let mut i = lo;
    while p.len() <= hi - i
        invariant
            lo <= i <= hi,
            hi <= v@.len(),
            p@.len() >= 1,
            s == v@.subrange(lo as int, hi as int),
            find(s, p@) == find_from(s, p@, i - lo),
        decreases hi - i,
    {
        if matches_at(v, lo, hi, p, i) {
            return Some(i);
        }
        i = i + 1;
    }
    None
}

/// `s` starts with `p`.
pub open spec fn starts_with(s: Seq<char>, p: Seq<char>) -> bool {
    p.len() <= s.len() && s.subrange(0, p.len() as int) == p
}

/// `s` ends with `p`.
pub open spec fn ends_with(s: Seq<char>, p: Seq<char>) -> bool {
    p.len() <= s.len() && s.subrange(s.len() - p.len(), s.len() as int) == p
}

pub fn starts_with_in(v: &Vec<char>, lo: usize, hi: usize, p: &Vec<char>) -> (b: bool)
    requires
        lo <= hi <= v@.len(),
    ensures
        b == starts_with(v@.subrange(lo as int, hi as int), p@),
{
    let b = matches_at(v, lo, hi, p, lo);
    proof {
        let s = v@.subrange(lo as int, hi as int);
        assert(b == occurs_at(s, p@, 0));
    }
    b
}

pub fn ends_with_in(v: &Vec<char>, lo: usize, hi: usize, p: &Vec<char>) -> (b: bool)
    requires
        lo <= hi <= v@.len(),
    ensures
        b == ends_with(v@.subrange(lo as int, hi as int), p@),
{
    if p.len() > hi - lo {
        return false;
    }
    matches_at(v, lo, hi, p, hi - p.len())
}

/// Equality of the characters of `v[lo..hi]` with `p`.
pub fn equals_in(v: &Vec<char>, lo: usize, hi: usize, p: &Vec<char>) -> (b: bool)
    requires
        lo <= hi <= v@.len(),
    ensures
        b == (v@.subrange(lo as int, hi as int) == p@),
{
    if p.len() != hi - lo {
        proof {
            if v@.subrange(lo as int, hi as int) == p@ {
                assert(false);
            }
        }
        return false;
    }
    let b = matches_at(v, lo, hi, p, lo);
    proof {
        let s = v@.subrange(lo as int, hi as int);
        assert(s.subrange(0, p@.len() as int) =~= s);
    }
    b
}

/// Equality of two texts, character by character.
pub fn str_eq(a: &str, b: &str) -> (r: bool)
    ensures
        r == (a@ == b@),
{
    let va = chars_of(a);
    let vb = chars_of(b);
    let r = equals_in(&va, 0, va.len(), &vb);
    proof {
        assert(va@.subrange(0, va@.len() as int) =~= va@);
    }
    r
}

/// Index of the first `c` in `s`, or the length of `s` when there is none.
pub open spec fn char_end(s: Seq<char>, c: char) -> nat
    decreases s.len(),
{
    if s.len() == 0 || s[0] == c {
        0
    } else {
        1 + char_end(s.drop_first(), c)
    }
}

pub proof fn lemma_char_end(s: Seq<char>, c: char)
    ensures
        char_end(s, c) <= s.len(),
        forall|i: int| 0 <= i < char_end(s, c) ==> s[i] != c,
        char_end(s, c) < s.len() ==> s[char_end(s, c) as int] == c,
    decreases s.len(),
{
    if s.len() > 0 && s[0] != c {
        lemma_char_end(s.drop_first(), c);
        assert forall|i: int| 0 <= i < char_end(s, c) implies s[i] != c by {
            if i > 0 {
                assert(s[i] == s.drop_first()[i - 1]);
            }
        }
    }
}

/// Position of the first `c` in `v[lo..hi]`, or `hi`.
pub fn char_end_in(v: &Vec<char>, lo: usize, hi: usize, c: char) -> (e: usize)
    requires
        lo <= hi <= v@.len(),
    ensures
        lo <= e <= hi,
        e - lo == char_end(v@.subrange(lo as int, hi as int), c),
{
    let mut i = lo;
    while i < hi && v[i] != c
        invariant
            lo <= i <= hi <= v@.len(),
            char_end(v@.subrange(lo as int, hi as int), c) == (i - lo) + char_end(
                v@.subrange(i as int, hi as int),
                c,
            ),
        decreases hi - i,
    {
        assert(v@.subrange(i as int, hi as int).drop_first() =~= v@.subrange(i + 1, hi as int));
        i = i + 1;
    }
    proof {
        if i < hi {
            assert(v@.subrange(i as int, hi as int)[0] == v@[i as int]);
        }
    }
    i
}

/// The pieces of `s` between the separators `c`, as `str::split` gives
/// them; there is always at least one piece.
pub open spec fn split_pieces(s: Seq<char>, c: char) -> Seq<Seq<char>>
    decreases s.len(),
{
    let e = char_end(s, c);
    if e < s.len() {
        seq![s.take(e as int)] + split_pieces(s.skip(e + 1 as int), c)
    } else {
        seq![s]
    }
}

/// `l` without one trailing carriage return.
pub open spec fn strip_cr(l: Seq<char>) -> Seq<char> {
    if l.len() > 0 && l.last() == '\r' {
        l.drop_last()
    } else {
        l
    }
}

/// The lines of `s`, as `str::lines` gives them: split at `\n`, a trailing
/// `\r` dropped from each line, and no empty line after a final `\n`.
pub open spec fn lines(s: Seq<char>) -> Seq<Seq<char>>
    decreases s.len(),
{
    if s.len() == 0 {
        seq![]
    } else {
        let e = char_end(s, '\n');
        if e < s.len() {
            seq![strip_cr(s.take(e as int))] + lines(s.skip(e + 1 as int))
        } else {
            seq![strip_cr(s)]
        }
    }
}

/// End of the line that starts at `lo` in `v[lo..hi]`, with a trailing
/// carriage return left out.
pub fn line_content_end(v: &Vec<char>, lo: usize, e: usize) -> (r: usize)
    requires
        lo <= e <= v@.len(),
    ensures
        lo <= r <= e,
        v@.subrange(lo as int, r as int) == strip_cr(v@.subrange(lo as int, e as int)),
{
    if e > lo && v[e - 1] == '\r' {
        assert(v@.subrange(lo as int, e as int).drop_last() =~= v@.subrange(lo as int, e - 1));
        e - 1
    } else {
        e
    }
}

/// The line that starts at `pos` in `v[pos..n]`: it ends (its content,
/// without a trailing carriage return) at `r.0`, and the next line starts
/// at `r.1`.
pub fn line_at(v: &Vec<char>, pos: usize, n: usize) -> (r: (usize, usize))
    requires
        pos < n <= v@.len(),
    ensures
        pos <= r.0 <= n,
        pos < r.1 <= n,
        lines(v@.subrange(pos as int, n as int)) == seq![v@.subrange(pos as int, r.0 as int)] + lines(
            v@.subrange(r.1 as int, n as int),
        ),
{
    let ghost rem = v@.subrange(pos as int, n as int);
    let e = char_end_in(v, pos, n, '\n');
    let b = line_content_end(v, pos, e);
    let next = if e < n {
        e + 1
    } else {
        n
    };
    proof {
        lemma_char_end(rem, '\n');
        if e < n {
            assert(rem.take(e - pos) =~= v@.subrange(pos as int, e as int));
            assert(rem.skip(e - pos + 1) =~= v@.subrange(next as int, n as int));
        } else {
            assert(rem =~= v@.subrange(pos as int, e as int));
            assert(v@.subrange(next as int, n as int) =~= Seq::<char>::empty());
        }
        assert(lines(rem) =~= seq![v@.subrange(pos as int, b as int)] + lines(v@.subrange(next as int, n as int)));
    }
    (b, next)
}

pub open spec fn is_digit(c: char) -> bool {
    '0' <= c <= '9'
}

pub open spec fn digit_value(c: char) -> int {
    (c as int) - ('0' as int)
}

pub open spec fn all_digits(s: Seq<char>) -> bool {
    forall|i: int| 0 <= i < s.len() ==> is_digit(#[trigger] s[i])
}

/// The number that the decimal digits `s` write.
pub open spec fn digits_value(s: Seq<char>) -> int
    decreases s.len(),
{
    if s.len() == 0 {
        0
    } else {
        digits_value(s.drop_last()) * 10 + digit_value(s.last())
    }
}

/// What `str::parse` gives for an unsigned integer type whose largest value
/// is `max`: an optional `+`, then one or more decimal digits, with no
/// overflow.
pub open spec fn parse_unsigned(s: Seq<char>, max: int) -> Option<int> {
    let body = if s.len() > 0 && s[0] == '+' {
        s.drop_first()
    } else {
        s
    };
    if body.len() > 0 && all_digits(body) && digits_value(body) <= max {
        Some(digits_value(body))
    } else {
        None
    }
}

/// What `str::parse` gives for a signed integer type with range
/// `[min, max]`: an optional sign, then one or more decimal digits, with no
/// overflow.
pub open spec fn parse_signed(s: Seq<char>, min: int, max: int) -> Option<int> {
    if s.len() > 0 && s[0] == '-' {
        let body = s.drop_first();
        if body.len() > 0 && all_digits(body) && -digits_value(body) >= min {
            Some(-digits_value(body))
        } else {
            None
        }
    } else {
        parse_unsigned(s, max)
    }
}

/// The value of the digits `v[lo..hi]` when they are one or more decimal
/// digits whose value is at most `max`.
fn digits_in(v: &Vec<char>, lo: usize, hi: usize, max: u64) -> (r: Option<u64>)
    requires
        lo <= hi <= v@.len(),
    ensures
        ({
            let s = v@.subrange(lo as int, hi as int);
            match r {
                Some(x) => s.len() > 0 && all_digits(s) && x == digits_value(s) && x <= max,
                None => !(s.len() > 0 && all_digits(s) && digits_value(s) <= max),
            }
        }),
{
    let ghost s = v@.subrange(lo as int, hi as int);
    if lo == hi {
        return None;
    }
    let mut acc: u64 = 0;
    let mut over = false;
    let mut i = lo;
    while i < hi
        invariant
            lo <= i <= hi <= v@.len(),
            s == v@.subrange(lo as int, hi as int),
            all_digits(v@.subrange(lo as int, i as int)),
            !over ==> acc == digits_value(v@.subrange(lo as int, i as int)) && acc <= max,
            over ==> digits_value(v@.subrange(lo as int, i as int)) > max,
        decreases hi - i,
    {
        let c = v[i];
        let ghost pre = v@.subrange(lo as int, i as int);
        let ghost next = v@.subrange(lo as int, i + 1);
        assert(next.drop_last() =~= pre);
        assert(next.last() == c);
        if !('0' <= c && c <= '9') {
            assert(!all_digits(s)) by {
                assert(s[i - lo] == c);
            }
            return None;
        }
        assert(all_digits(next)) by {
            assert forall|j: int| 0 <= j < next.len() implies is_digit(#[trigger] next[j]) by {
                if j < pre.len() {
                    assert(next[j] == pre[j]);
                }
            }
        }
        let d = (c as u32 - '0' as u32) as u64;
        if !over {
            let wide = (acc as u128) * 10 + (d as u128);
            if wide > max as u128 {
                over = true;
            } else {
                acc = wide as u64;
            }
        }
        i = i + 1;
    }
    assert(v@.subrange(lo as int, i as int) =~= s);
    if over {
        None
    } else {
        Some(acc)
    }
}

/// `str::parse` for an unsigned type with largest value `max`, on `v[lo..hi]`.
pub fn parse_unsigned_in(v: &Vec<char>, lo: usize, hi: usize, max: u64) -> (r: Option<u64>)
    requires
        lo <= hi <= v@.len(),
    ensures
        match parse_unsigned(v@.subrange(lo as int, hi as int), max as int) {
            Some(x) => r matches Some(y) && y == x,
            None => r is None,
        },
{
    let ghost s = v@.subrange(lo as int, hi as int);
    if lo < hi && v[lo] == '+' {
        assert(s.drop_first() =~= v@.subrange(lo + 1, hi as int));
        digits_in(v, lo + 1, hi, max)
    } else {
        digits_in(v, lo, hi, max)
    }
}

/// `str::parse::<i32>` on `v[lo..hi]`.
pub fn parse_i32_in(v: &Vec<char>, lo: usize, hi: usize) -> (r: Option<i32>)
    requires
        lo <= hi <= v@.len(),
    ensures
        match parse_signed(v@.subrange(lo as int, hi as int), i32::MIN as int, i32::MAX as int) {
            Some(x) => r matches Some(y) && y == x,
            None => r is None,
        },
{
    let ghost s = v@.subrange(lo as int, hi as int);
    assert(s.len() > 0 ==> s[0] == v@[lo as int]);
    if lo < hi && v[lo] == '-' {
        assert(s.drop_first() =~= v@.subrange(lo + 1, hi as int));
        match digits_in(v, lo + 1, hi, 0x8000_0000) {
            Some(m) => {
                let n: i64 = 0 - (m as i64);
                assert(n == -digits_value(s.drop_first()));
                assert(parse_signed(s, i32::MIN as int, i32::MAX as int) == Some(n as int));
                Some(n as i32)
            },
            None => {
                assert(parse_signed(s, i32::MIN as int, i32::MAX as int) is None);
                None
            },
        }
    } else {
        match parse_unsigned_in(v, lo, hi, 0x7fff_ffff) {
            Some(m) => {
                assert(parse_signed(s, i32::MIN as int, i32::MAX as int) == Some(m as int));
                Some(m as i32)
            },
            None => {
                assert(parse_signed(s, i32::MIN as int, i32::MAX as int) is None);
                None
            },
        }
    }
}

/// Lexicographic order on texts, as `str` orders them.
pub open spec fn lex_lt(a: Seq<char>, b: Seq<char>) -> bool
    decreases a.len(),
{
    if b.len() == 0 {
        false
    } else if a.len() == 0 {
        true
    } else if a[0] != b[0] {
        a[0] < b[0]
    } else {
        lex_lt(a.drop_first(), b.drop_first())
    }
}

pub proof fn lemma_lex_irreflexive(a: Seq<char>)
    ensures
        !lex_lt(a, a),
    decreases a.len(),
{
    if a.len() > 0 {
        lemma_lex_irreflexive(a.drop_first());
    }
}

pub proof fn lemma_lex_total(a: Seq<char>, b: Seq<char>)
    ensures
        a != b ==> lex_lt(a, b) || lex_lt(b, a),
        !(lex_lt(a, b) && lex_lt(b, a)),
    decreases a.len(),
{
    if a.len() > 0 && b.len() > 0 && a[0] == b[0] {
        lemma_lex_total(a.drop_first(), b.drop_first());
        if a != b {
            assert(a.drop_first() != b.drop_first()) by {
                if a.drop_first() == b.drop_first() {
                    assert(a =~= seq![a[0]] + a.drop_first());
                    assert(b =~= seq![b[0]] + b.drop_first());
                }
            }
        }
    }
    if a.len() == 0 && b.len() == 0 {
        assert(a =~= b);
    }
}

pub proof fn lemma_lex_transitive(a: Seq<char>, b: Seq<char>, c: Seq<char>)
    requires
        lex_lt(a, b),
        lex_lt(b, c),
    ensures
        lex_lt(a, c),
    decreases a.len(),
{
    if a.len() > 0 && a[0] == b[0] && b[0] == c[0] {
        lemma_lex_transitive(a.drop_first(), b.drop_first(), c.drop_first());
    }
}

/// `a` comes before `b` in the lexicographic order of texts.
pub fn str_lt(a: &str, b: &str) -> (r: bool)
    ensures
        r == lex_lt(a@, b@),
{
    let va = chars_of(a);
    let vb = chars_of(b);
    let mut i: usize = 0;
    assert(va@.skip(0) =~= va@);
    assert(vb@.skip(0) =~= vb@);
    loop
        invariant
            i <= va@.len(),
            i <= vb@.len(),
            va@ == a@,
            vb@ == b@,
            lex_lt(a@, b@) == lex_lt(va@.skip(i as int), vb@.skip(i as int)),
        decreases va@.len() - i,
    {
        if i == vb.len() {
            return false;
        }
        if i == va.len() {
            return true;
        }
        assert(va@.skip(i as int)[0] == va@[i as int]);
        assert(vb@.skip(i as int)[0] == vb@[i as int]);
        if va[i] != vb[i] {
            return va[i] < vb[i];
        }
        assert(va@.skip(i as int).drop_first() =~= va@.skip(i + 1));
        assert(vb@.skip(i as int).drop_first() =~= vb@.skip(i + 1));
        i = i + 1;
    }
}

/// The texts of `v` are in strictly increasing lexicographic order.
pub open spec fn strictly_sorted(v: Seq<String>) -> bool {
    forall|i: int, j: int| 0 <= i < j < v.len() ==> lex_lt(v[i]@, v[j]@)
}

/// The text `t` is one of the texts of `v`.
pub open spec fn has_text(v: Seq<String>, t: Seq<char>) -> bool {
    exists|i: int| 0 <= i < v.len() && (#[trigger] v[i])@ == t
}

/// No two strings of `v` have the same text.
pub open spec fn distinct_texts(v: Seq<String>) -> bool {
    forall|i: int, j: int| 0 <= i < v.len() && 0 <= j < v.len() && i != j ==> v[i]@ != v[j]@
}

/// Whether some string of `v` has the text of `s`.
pub fn holds_text(v: &Vec<String>, s: &str) -> (r: bool)
    ensures
        r == has_text(v@, s@),
{
    let mut i: usize = 0;
    while i < v.len()
        invariant
            i <= v@.len(),
            forall|k: int| 0 <= k < i ==> v@[k]@ != s@,
        decreases v@.len() - i,
    {
        if str_eq(v[i].as_str(), s) {
            return true;
        }
        i = i + 1;
    }
    false
}

/// The strings of `v`, each text once, in the order of first occurrence.
pub fn unique_texts(v: Vec<String>) -> (r: Vec<String>)
    ensures
        distinct_texts(r@),
        forall|t: Seq<char>| has_text(r@, t) <==> has_text(v@, t),
{
    let mut r: Vec<String> = Vec::new();
    let mut i: usize = 0;
    while i < v.len()
        invariant
            i <= v@.len(),
            distinct_texts(r@),
            forall|t: Seq<char>| has_text(r@, t) <==> has_text(v@.take(i as int), t),
        decreases v@.len() - i,
    {
        let ghost before = r@;
        if !holds_text(&r, v[i].as_str()) {
            r.push(v[i].clone());
            proof {
                assert(r@ == before.push(v@[i as int]));
            }
        } else {
            proof {
                assert(has_text(before, v@[i as int]@));
            }
        }
        proof {
            assert(r@.len() >= before.len());
            assert(forall|k: int| 0 <= k < before.len() ==> r@[k] == before[k]);
            assert(v@.take(i + 1) =~= v@.take(i as int).push(v@[i as int]));
            assert forall|t: Seq<char>| has_text(r@, t) <==> has_text(v@.take(i + 1), t) by {
                if has_text(r@, t) {
                    let k = choose|k: int| 0 <= k < r@.len() && (#[trigger] r@[k])@ == t;
                    if k < before.len() {
                        assert(r@[k] == before[k]);
                        assert(has_text(before, t));
                        let m = choose|m: int| 0 <= m < v@.take(i as int).len() && (#[trigger] v@.take(i as int)[m])@ == t;
                        assert(v@.take(i + 1)[m] == v@.take(i as int)[m]);
                    } else {
                        assert(v@.take(i + 1)[i as int]@ == t);
                    }
                }
                if has_text(v@.take(i + 1), t) {
                    let m = choose|m: int| 0 <= m < v@.take(i + 1).len() && (#[trigger] v@.take(i + 1)[m])@ == t;
                    if m < i {
                        assert(v@.take(i as int)[m] == v@.take(i + 1)[m]);
                        assert(has_text(v@.take(i as int), t));
                        assert(has_text(before, t));
                        let k = choose|k: int| 0 <= k < before.len() && (#[trigger] before[k])@ == t;
                        assert(r@[k] == before[k]);
                    } else if has_text(before, t) {
                        let k = choose|k: int| 0 <= k < before.len() && (#[trigger] before[k])@ == t;
                        assert(r@[k] == before[k]);
                    } else {
                        assert(r@[r@.len() - 1]@ == t);
                    }
                }
            }
        }
        i = i + 1;
    }
    proof {
        assert(v@.take(v@.len() as int) =~= v@);
    }
    r
}

/// The strings of `v`, whose texts are distinct, in increasing order.
pub fn sort_distinct(v: Vec<String>) -> (r: Vec<String>)
    requires
        forall|i: int, j: int| 0 <= i < v@.len() && 0 <= j < v@.len() && i != j ==> v@[i]@ != v@[j]@,
    ensures
        r@.len() == v@.len(),
        strictly_sorted(r@),
        forall|t: Seq<char>| has_text(r@, t) <==> has_text(v@, t),
{
    let mut r: Vec<String> = Vec::new();
    let mut k: usize = 0;
    let n = v.len();
    while k < n
        invariant
            k <= n == v@.len(),
            r@.len() == k,
            strictly_sorted(r@),
            forall|i: int, j: int|
                0 <= i < v@.len() && 0 <= j < v@.len() && i != j ==> v@[i]@ != v@[j]@,
            forall|t: Seq<char>| has_text(r@, t) <==> has_text(v@.take(k as int), t),
        decreases n - k,
    {
        let x = v[k].clone();
        let ghost xt = x@;
        assert(!has_text(r@, xt)) by {
            if has_text(r@, xt) {
                let j = choose|j: int| 0 <= j < v@.take(k as int).len() && (#[trigger] v@.take(k as int)[j])@ == xt;
                assert(v@.take(k as int)[j] == v@[j]);
            }
        }
        let mut i: usize = 0;
        while i < r.len() && !str_lt(x.as_str(), r[i].as_str())
            invariant
                i <= r@.len(),
                !has_text(r@, xt),
                x@ == xt,
                forall|j: int| 0 <= j < i ==> lex_lt(r@[j]@, xt),
            decreases r@.len() - i,
        {
            proof {
                lemma_lex_total(r@[i as int]@, xt);
                assert(r@[i as int]@ != xt);
            }
            i = i + 1;
        }
        let ghost old_r = r@;
        r.insert(i, x);
        proof {
            assert forall|a: int, b: int| 0 <= a < b < r@.len() implies lex_lt(r@[a]@, r@[b]@) by {
                if b < i {
                    assert(r@[a] == old_r[a] && r@[b] == old_r[b]);
                } else if b == i {
                    assert(r@[a] == old_r[a]);
                } else if a == i {
                    assert(r@[b] == old_r[b - 1]);
                    if b - 1 > i {
                        lemma_lex_transitive(xt, old_r[i as int]@, old_r[b - 1]@);
                    }
                } else if a < i {
                    assert(r@[a] == old_r[a] && r@[b] == old_r[b - 1]);
                } else {
                    assert(r@[a] == old_r[a - 1] && r@[b] == old_r[b - 1]);
                }
            }
            assert forall|t: Seq<char>| has_text(r@, t) <==> has_text(v@.take(k + 1), t) by {
                if has_text(r@, t) {
                    let j = choose|j: int| 0 <= j < r@.len() && (#[trigger] r@[j])@ == t;
                    if j == i {
                        assert(v@.take(k + 1)[k as int] == v@[k as int]);
                    } else {
                        let j2 = if j < i { j } else { j - 1 };
                        assert(old_r[j2]@ == t);
                        assert(has_text(old_r, t));
                        let m = choose|m: int| 0 <= m < v@.take(k as int).len() && (#[trigger] v@.take(k as int)[m])@ == t;
                        assert(v@.take(k + 1)[m] == v@.take(k as int)[m]);
                    }
                }
                if has_text(v@.take(k + 1), t) {
                    let m = choose|m: int| 0 <= m < v@.take(k + 1).len() && (#[trigger] v@.take(k + 1)[m])@ == t;
                    if m == k {
                        assert(r@[i as int]@ == t);
                    } else {
                        assert(v@.take(k as int)[m] == v@.take(k + 1)[m]);
                        assert(has_text(v@.take(k as int), t));
                        assert(has_text(old_r, t));
                        let j = choose|j: int| 0 <= j < old_r.len() && (#[trigger] old_r[j])@ == t;
                        let j2 = if j < i { j } else { j + 1 };
                        assert(r@[j2]@ == t);
                    }
                }
            }
        }
        k = k + 1;
    }
    assert(v@.take(n as int) =~= v@);
    r
}

/// `needle` occurs in `haystack`.
pub fn str_contains(haystack: &str, needle: &str) -> (r: bool)
    ensures
        r == contains(haystack@, needle@),
{
    let h = chars_of(haystack);
    let n = chars_of(needle);
    assert(h@.subrange(0, h@.len() as int) =~= h@);
    proof {
        lemma_find(h@, n@);
    }
    find_in(&h, 0, h.len(), &n).is_some()
}

} // verus!
