use vstd::prelude::*;

use crate::numbers::{all_digits, char_is_digit, digits_val, is_digit, parse_u32};
use crate::text::{matches_at, matches_at_str, subrange_vec};

verus! {

// ---------------------------------------------------------------------------
// Digit runs
// ---------------------------------------------------------------------------

/// Length of the maximal run of decimal digits starting at `i`.
pub open spec fn run_len(s: Seq<char>, i: int) -> int
    decreases s.len() - i,
{
    if i < 0 || i >= s.len() || !is_digit(s[i]) {
        0
    } else {
        1 + run_len(s, i + 1)
    }
}

pub fn run_len_x(v: &Vec<char>, i: usize) -> (r: usize)
    requires
        i <= v.len(),
    ensures
        r == run_len(v@, i as int),
        i + r <= v.len(),
        forall|j: int| i <= j < i + r ==> is_digit(v@[j]),
        (i < v.len() && is_digit(v@[i as int])) ==> r >= 1,
    decreases v.len() - i,
{
    if i < v.len() && char_is_digit(v[i]) {
        let rest = run_len_x(v, i + 1);
        1 + rest
    } else {
        0
    }
}

fn all_digits_x(v: &Vec<char>, a: usize, b: usize) -> (r: bool)
    requires
        a <= b <= v.len(),
    ensures
        r == all_digits(v@.subrange(a as int, b as int)),
        r ==> forall|j: int| a <= j < b ==> is_digit(v@[j]),
{
    let ghost s = v@.subrange(a as int, b as int);
    let mut i: usize = a;
    while i < b
        invariant
            a <= i <= b <= v.len(),
            s == v@.subrange(a as int, b as int),
            forall|j: int| 0 <= j < i - a ==> is_digit(s[j]),
        decreases b - i,
    {
        if !char_is_digit(v[i]) {
            proof {
                assert(s[i - a] == v@[i as int]);
            }
            return false;
        }
        i = i + 1;
    }
    proof {
        assert forall|j: int| a <= j < b implies is_digit(v@[j]) by {
            assert(v@.subrange(a as int, b as int)[j - a] == v@[j]);
        }
    }
    true
}

// ---------------------------------------------------------------------------
// The standalone episode-block grammar (pass 1)
// ---------------------------------------------------------------------------
//
// A block is an episode block when the whole of it is one of:
//   * digits,
//   * digits, at most one arbitrary character, `v` or `V`, one digit,
//   * an optional `第`, digits, then one of `话`, `話`, `集`,
//   * digits, at most one arbitrary character, then `END`.

/// The digits of `p` when `p` is a digit run followed by at most one
/// arbitrary character; the longer digit reading wins, as greedy matching
/// does.
pub open spec fn digits_then_opt1(p: Seq<char>) -> Option<Seq<char>> {
    if p.len() >= 1 && all_digits(p) {
        Some(p)
    } else if p.len() >= 2 && all_digits(p.take(p.len() - 1)) && p.len() - 1 >= 1 {
        Some(p.take(p.len() - 1))
    } else {
        None
    }
}

/// One of `话`, `話`, `集`.
pub open spec fn is_ep_count_char(c: char) -> bool {
    c == '\u{8bdd}' || c == '\u{8a71}' || c == '\u{96c6}'
}

/// The captured digits when the whole block matches the episode-block
/// grammar.
pub open spec fn ep1_cap(b: Seq<char>) -> Option<Seq<char>> {
    let n = b.len();
    if n >= 1 && all_digits(b) {
        Some(b)
    } else if n >= 3 && (b[n - 2] == 'v' || b[n - 2] == 'V') && is_digit(b[n - 1])
        && digits_then_opt1(b.take(n - 2)) is Some {
        digits_then_opt1(b.take(n - 2))
    } else if n >= 1 && ({
        let j: int = if b[0] == '\u{7b2c}' {
            1
        } else {
            0
        };
        n >= j + 2 && all_digits(b.subrange(j, n - 1)) && is_ep_count_char(b[n - 1])
    }) {
        let j: int = if b[0] == '\u{7b2c}' {
            1
        } else {
            0
        };
        Some(b.subrange(j, n - 1))
    } else if n >= 4 && matches_at(b, n - 3, "END"@) && digits_then_opt1(b.take(n - 3)) is Some {
        digits_then_opt1(b.take(n - 3))
    } else {
        None
    }
}

/// The episode number of a standalone episode block: the captured digits
/// when their value fits in a `u32`.
pub open spec fn ep1_value(b: Seq<char>) -> Option<u32> {
    match ep1_cap(b) {
        Option::Some(d) => if digits_val(d) <= u32::MAX {
            Some(digits_val(d) as u32)
        } else {
            None
        },
        Option::None => None,
    }
}

/// The end (exclusive) of the captured digit prefix, mirroring
/// `digits_then_opt1` on `b[0..pend]`.
fn digits_then_opt1_x(v: &Vec<char>, pend: usize) -> (r: Option<usize>)
    requires
        pend <= v.len(),
    ensures
        match r {
            Some(ce) => digits_then_opt1(v@.take(pend as int)) == Some(
                v@.subrange(0, ce as int),
            ) && ce <= pend && ce >= 1 && (forall|j: int| 0 <= j < ce ==> is_digit(v@[j])),
            None => digits_then_opt1(v@.take(pend as int)) is None,
        },
{
    let ghost p = v@.take(pend as int);
    if pend >= 1 && all_digits_x(v, 0, pend) {
        proof {
            assert(v@.subrange(0, pend as int) =~= p);
        }
        Some(pend)
    } else if pend >= 2 && all_digits_x(v, 0, pend - 1) {
        proof {
            assert(v@.subrange(0, pend as int - 1) =~= p.take(p.len() - 1));
            assert(v@.subrange(0, pend as int) =~= p);
        }
        Some(pend - 1)
    } else {
        proof {
            assert(v@.subrange(0, pend as int) =~= p);
            if pend >= 2 {
                assert(v@.subrange(0, pend as int - 1) =~= p.take(p.len() - 1));
            }
        }
        None
    }
}

/// Tests a standalone block against the episode-block grammar and parses
/// the episode number.
pub fn ep1_value_x(b: &Vec<char>) -> (r: Option<u32>)
    ensures
        r == ep1_value(b@),
{
    let n = b.len();
    if n >= 1 && all_digits_x(b, 0, n) {
        proof {
            assert(b@.subrange(0, n as int) =~= b@);
        }
        return parse_u32(b, 0, n);
    }
    if n >= 3 && (b[n - 2] == 'v' || b[n - 2] == 'V') && char_is_digit(b[n - 1]) {
        match digits_then_opt1_x(b, n - 2) {
            Some(ce) => {
                return parse_u32(b, 0, ce);
            },
            None => {},
        }
    }
    if n >= 1 {
        let j: usize = if b[0] == '第' {
            1
        } else {
            0
        };
        if n >= j + 2 && all_digits_x(b, j, n - 1) {
            let last = b[n - 1];
            if last == '话' || last == '話' || last == '集' {
                return parse_u32(b, j, n - 1);
            }
        }
    }
    if n >= 4 && matches_at_str(b, n - 3, "END") {
        match digits_then_opt1_x(b, n - 3) {
            Some(ce) => {
                return parse_u32(b, 0, ce);
            },
            None => {},
        }
    }
    None
}

// ---------------------------------------------------------------------------
// The embedded episode grammar (pass 2)
// ---------------------------------------------------------------------------
//
// An embedded episode marker is a space, an optional `-`, an optional
// space, then digits, or `第` digits `话`/`話`/`集`, or `E`/`e`, an
// optional `P`/`p`, and digits; an optional version suffix (at most one
// arbitrary character, `v` or `V`, one digit) follows.

/// An embedded-episode occurrence: where it ends and its captured digits.
pub struct EpHit {
    pub end: int,
    pub cap: Seq<char>,
}

/// The episode core (digit part and its delimiters) starting exactly at
/// `j`.
pub open spec fn ep2_core(s: Seq<char>, j: int) -> Option<EpHit> {
    if 0 <= j && j < s.len() && is_digit(s[j]) {
        Some(EpHit { end: j + run_len(s, j), cap: s.subrange(j, j + run_len(s, j)) })
    } else if 0 <= j && j < s.len() && s[j] == '\u{7b2c}' && run_len(s, j + 1) >= 1 && j + 1
        + run_len(s, j + 1) < s.len() && is_ep_count_char(s[j + 1 + run_len(s, j + 1)]) {
        Some(
            EpHit {
                end: j + 1 + run_len(s, j + 1) + 1,
                cap: s.subrange(j + 1, j + 1 + run_len(s, j + 1)),
            },
        )
    } else if 0 <= j && j < s.len() && (s[j] == 'E' || s[j] == 'e') {
        if j + 1 < s.len() && (s[j + 1] == 'P' || s[j + 1] == 'p') && run_len(s, j + 2) >= 1 {
            Some(
                EpHit {
                    end: j + 2 + run_len(s, j + 2),
                    cap: s.subrange(j + 2, j + 2 + run_len(s, j + 2)),
                },
            )
        } else if run_len(s, j + 1) >= 1 {
            Some(
                EpHit {
                    end: j + 1 + run_len(s, j + 1),
                    cap: s.subrange(j + 1, j + 1 + run_len(s, j + 1)),
                },
            )
        } else {
            None
        }
    } else {
        None
    }
}

/// The end of the optional version suffix following position `e`; the
/// longer reading wins, as greedy matching does.
pub open spec fn ep2_version_end(s: Seq<char>, e: int) -> int {
    if e + 3 <= s.len() && s[e] != '\n' && (s[e + 1] == 'v' || s[e + 1] == 'V') && is_digit(
        s[e + 2],
    ) {
        e + 3
    } else if e + 2 <= s.len() && (s[e] == 'v' || s[e] == 'V') && is_digit(s[e + 1]) {
        e + 2
    } else {
        e
    }
}

/// The embedded episode marker starting at position `i` (a space), if
/// any.
pub open spec fn ep2_hit(s: Seq<char>, i: int) -> Option<EpHit> {
    if i < 0 || i >= s.len() || s[i] != ' ' {
        None
    } else {
        let j1: int = if i + 1 < s.len() && s[i + 1] == '-' {
            i + 2
        } else {
            i + 1
        };
        let j2: int = if j1 < s.len() && s[j1] == ' ' {
            j1 + 1
        } else {
            j1
        };
        match ep2_core(s, j2) {
            Option::Some(c) => Some(EpHit { end: ep2_version_end(s, c.end), cap: c.cap }),
            Option::None => None,
        }
    }
}

/// Position `i` carries an embedded episode marker whose value fits in a
/// `u32`.
pub open spec fn ep2_ok_at(s: Seq<char>, i: int) -> bool {
    match ep2_hit(s, i) {
        Option::Some(h) => digits_val(h.cap) <= u32::MAX,
        Option::None => false,
    }
}

/// The position of the leftmost usable embedded episode marker at or
/// after `i`.
pub open spec fn ep2_find_from(s: Seq<char>, i: int) -> Option<int>
    decreases s.len() - i,
{
    if i < 0 || i >= s.len() {
        None
    } else if ep2_ok_at(s, i) {
        Some(i)
    } else {
        ep2_find_from(s, i + 1)
    }
}

/// A run of digits closed off by the end or a non-digit has exactly its
/// own length.
pub proof fn lemma_run_len_exact(s: Seq<char>, i: int, e: int)
    requires
        0 <= i <= e <= s.len(),
        forall|j: int| i <= j < e ==> is_digit(s[j]),
        e == s.len() || !is_digit(s[e]),
    ensures
        run_len(s, i) == e - i,
    decreases e - i,
{
    if i < e {
        lemma_run_len_exact(s, i + 1, e);
    }
}

/// The embedded episode number of one block: the leftmost usable marker,
/// accepted only when nothing but whitespace trails it.
pub open spec fn ep2_block_value(b: Seq<char>) -> Option<u32> {
    match ep2_find_from(b, 0) {
        Option::None => None,
        Option::Some(ix) => match ep2_hit(b, ix) {
            Option::Some(h) => {
                let e = if 0 <= h.end <= b.len() {
                    h.end
                } else {
                    b.len() as int
                };
                if digits_val(h.cap) <= u32::MAX && crate::text::trim(b.skip(e)).len() == 0 {
                    Some(digits_val(h.cap) as u32)
                } else {
                    None
                }
            },
            Option::None => None,
        },
    }
}

/// The leftmost usable marker is the first position that carries one.
pub proof fn lemma_ep2_find_exact(s: Seq<char>, i: int, p: int)
    requires
        0 <= i <= p < s.len(),
        forall|j: int| i <= j < p ==> !ep2_ok_at(s, j),
        ep2_ok_at(s, p),
    ensures
        ep2_find_from(s, i) == Some(p),
    decreases p - i,
{
    if i < p {
        lemma_ep2_find_exact(s, i + 1, p);
    }
}

fn ep2_core_x(v: &Vec<char>, j: usize) -> (r: Option<(usize, Vec<char>)>)
    ensures
        match r {
            Some(p) => ep2_core(v@, j as int) == Some(EpHit { end: p.0 as int, cap: p.1@ }) && j
                < p.0 <= v.len() && p.1@.len() >= 1 && all_digits(p.1@),
            None => ep2_core(v@, j as int) is None,
        },
{
    if j >= v.len() {
        return None;
    }
    if char_is_digit(v[j]) {
        let rl = run_len_x(v, j);
        let cap = subrange_vec(v, j, j + rl);
        proof {
            assert(rl >= 1);
            assert(all_digits(cap@));
        }
        return Some((j + rl, cap));
    }
    if v[j] == '第' {
        let rl = run_len_x(v, j + 1);
        if rl >= 1 && j + 1 + rl < v.len() {
            let t = v[j + 1 + rl];
            if t == '话' || t == '話' || t == '集' {
                let cap = subrange_vec(v, j + 1, j + 1 + rl);
                proof {
                    assert(all_digits(cap@));
                }
                return Some((j + 1 + rl + 1, cap));
            }
        }
        return None;
    }
    if v[j] == 'E' || v[j] == 'e' {
        if j + 1 < v.len() && (v[j + 1] == 'P' || v[j + 1] == 'p') {
            let rl = run_len_x(v, j + 2);
            if rl >= 1 {
                let cap = subrange_vec(v, j + 2, j + 2 + rl);
                proof {
                    assert(all_digits(cap@));
                }
                return Some((j + 2 + rl, cap));
            }
        }
        let rl = run_len_x(v, j + 1);
        if rl >= 1 {
            let cap = subrange_vec(v, j + 1, j + 1 + rl);
            proof {
                assert(all_digits(cap@));
            }
            return Some((j + 1 + rl, cap));
        }
        return None;
    }
    None
}

fn ep2_version_end_x(v: &Vec<char>, e: usize) -> (r: usize)
    requires
        e <= v.len(),
    ensures
        r == ep2_version_end(v@, e as int),
        e <= r <= v.len(),
{
    let n = v.len();
    if n - e >= 3 && v[e] != '\n' && (v[e + 1] == 'v' || v[e + 1] == 'V') && char_is_digit(
        v[e + 2],
    ) {
        e + 3
    } else if n - e >= 2 && (v[e] == 'v' || v[e] == 'V') && char_is_digit(v[e + 1]) {
        e + 2
    } else {
        e
    }
}

/// The embedded episode marker at `i`: (end, captured digits).
fn ep2_hit_x(v: &Vec<char>, i: usize) -> (r: Option<(usize, Vec<char>)>)
    ensures
        match r {
            Some(p) => ep2_hit(v@, i as int) == Some(EpHit { end: p.0 as int, cap: p.1@ }) && i
                < p.0 <= v.len() && p.1@.len() >= 1 && all_digits(p.1@),
            None => ep2_hit(v@, i as int) is None,
        },
{
    if i >= v.len() || v[i] != ' ' {
        return None;
    }
    let j1: usize = if i + 1 < v.len() && v[i + 1] == '-' {
        i + 2
    } else {
        i + 1
    };
    let j2: usize = if j1 < v.len() && v[j1] == ' ' {
        j1 + 1
    } else {
        j1
    };
    match ep2_core_x(v, j2) {
        Some(p) => {
            let e = ep2_version_end_x(v, p.0);
            Some((e, p.1))
        },
        None => None,
    }
}

/// Finds the leftmost usable embedded episode marker at or after `i`.
pub fn ep2_find_x(v: &Vec<char>, i: usize) -> (r: Option<usize>)
    requires
        i <= v.len(),
    ensures
        match r {
            Some(ix) => ep2_find_from(v@, i as int) == Some(ix as int) && i <= ix < v.len()
                && ep2_ok_at(v@, ix as int),
            None => ep2_find_from(v@, i as int) is None,
        },
    decreases v.len() - i,
{
    if i >= v.len() {
        return None;
    }
    let ok = match ep2_hit_x(v, i) {
        Some(p) => {
            let val = parse_u32(&p.1, 0, p.1.len());
            proof {
                assert(p.1@.subrange(0, p.1@.len() as int) =~= p.1@);
            }
            val.is_some()
        },
        None => false,
    };
    if ok {
        Some(i)
    } else {
        ep2_find_x(v, i + 1)
    }
}

/// The embedded episode marker at `i` together with its parsed value,
/// for a position where one is known to be usable.
pub fn ep2_take_x(v: &Vec<char>, i: usize) -> (r: Option<(usize, u32)>)
    ensures
        match r {
            Some(p) => ep2_ok_at(v@, i as int) && (ep2_hit(v@, i as int) matches Some(h) && p.0
                == h.end && i < p.0 <= v.len() && p.1 == digits_val(h.cap)),
            None => !ep2_ok_at(v@, i as int),
        },
{
    match ep2_hit_x(v, i) {
        Some(p) => {
            let val = parse_u32(&p.1, 0, p.1.len());
            proof {
                assert(p.1@.subrange(0, p.1@.len() as int) =~= p.1@);
            }
            match val {
                Some(n) => Some((p.0, n)),
                None => None,
            }
        },
        None => None,
    }
}

} // verus!
