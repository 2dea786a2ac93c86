use vstd::prelude::*;

use crate::numbers::{all_digits, char_is_digit, digit_val, digits_val, is_digit, parse_u32};
use crate::text::{matches_at, matches_at_str, subrange_vec};

verus! {

// ---------------------------------------------------------------------------
// The season marker grammar
// ---------------------------------------------------------------------------
//
// A season marker is one of:
//   * `S` followed by one or two digits,
//   * `Season ` followed by one or two digits,
//   * `第` or a space, then a single marker character, then `部分` or one
//     of `季`, `期`, `部`.
// The marker character of the third form is an Arabic digit or a Chinese
// numeral.

/// The value of a single Chinese numeral character, or `0` when the
/// character is not one.
pub open spec fn zh_digit(c: char) -> int {
    if c == '\u{4e00}' {
        1
    } else if c == '\u{4e8c}' {
        2
    } else if c == '\u{4e09}' {
        3
    } else if c == '\u{56db}' {
        4
    } else if c == '\u{4e94}' {
        5
    } else if c == '\u{516d}' {
        6
    } else if c == '\u{4e03}' {
        7
    } else if c == '\u{516b}' {
        8
    } else if c == '\u{4e5d}' {
        9
    } else if c == '\u{5341}' {
        10
    } else {
        0
    }
}

pub fn zh_digit_x(c: char) -> (r: u8)
    ensures
        r == zh_digit(c),
{
    if c == '一' {
        1
    } else if c == '二' {
        2
    } else if c == '三' {
        3
    } else if c == '四' {
        4
    } else if c == '五' {
        5
    } else if c == '六' {
        6
    } else if c == '七' {
        7
    } else if c == '八' {
        8
    } else if c == '九' {
        9
    } else if c == '十' {
        10
    } else {
        0
    }
}

/// Length of the one-or-two digit run at `i`, greedy; `0` when `s[i]` is
/// not a digit.
pub open spec fn digits12_at(s: Seq<char>, i: int) -> int {
    if 0 <= i && i < s.len() && is_digit(s[i]) {
        if i + 1 < s.len() && is_digit(s[i + 1]) {
            2
        } else {
            1
        }
    } else {
        0
    }
}

/// A season-marker occurrence: its total length and its captured text
/// (the digits, or the single marker character).
pub struct SeasonHit {
    pub len: int,
    pub cap: Seq<char>,
}

/// The season marker starting at position `i` of `s`, if any.  The three
/// forms are tried in order, as the leftmost-first matching of an
/// alternation does.
pub open spec fn season_hit(s: Seq<char>, i: int) -> Option<SeasonHit> {
    if i < 0 || i >= s.len() {
        None
    } else if s[i] == 'S' && digits12_at(s, i + 1) >= 1 {
        let d = digits12_at(s, i + 1);
        Some(SeasonHit { len: 1 + d, cap: s.subrange(i + 1, i + 1 + d) })
    } else if matches_at(s, i, "Season "@) && digits12_at(s, i + 7) >= 1 {
        let d = digits12_at(s, i + 7);
        Some(SeasonHit { len: 7 + d, cap: s.subrange(i + 7, i + 7 + d) })
    } else if (s[i] == '\u{7b2c}' || s[i] == ' ') && i + 1 < s.len() && s[i + 1] != '\n' {
        if matches_at(s, i + 2, "部分"@) {
            Some(SeasonHit { len: 4, cap: seq![s[i + 1]] })
        } else if i + 2 < s.len() && (s[i + 2] == '\u{5b63}' || s[i + 2] == '\u{671f}' || s[i + 2]
            == '\u{90e8}') {
            Some(SeasonHit { len: 3, cap: seq![s[i + 1]] })
        } else {
            None
        }
    } else {
        None
    }
}

/// The position of the leftmost season marker at or after `i`.
pub open spec fn season_find_from(s: Seq<char>, i: int) -> Option<int>
    decreases s.len() - i,
{
    if i < 0 || i >= s.len() {
        None
    } else if season_hit(s, i) is Some {
        Some(i)
    } else {
        season_find_from(s, i + 1)
    }
}

/// `s` with every season marker removed, scanning left to right from `i`,
/// as a replace-all with the empty string does.
pub open spec fn season_remove_from(s: Seq<char>, i: int) -> Seq<char>
    decreases s.len() - i,
{
    if i < 0 || i >= s.len() {
        seq![]
    } else {
        match season_hit(s, i) {
            Option::Some(h) => {
                let j = if 1 <= h.len && i + h.len <= s.len() {
                    i + h.len
                } else {
                    i + 1
                };
                season_remove_from(s, j)
            },
            Option::None => seq![s[i]] + season_remove_from(s, i + 1),
        }
    }
}

/// The season number encoded by a captured marker text: one or two
/// digits give their value when it is at least 1 (at most 99 by shape);
/// a single Chinese numeral gives its value; anything else is not a
/// season.
pub open spec fn season_value(cap: Seq<char>) -> Option<u8> {
    if 1 <= cap.len() <= 2 && all_digits(cap) {
        if 1 <= digits_val(cap) {
            Some(digits_val(cap) as u8)
        } else {
            None
        }
    } else if cap.len() == 1 && zh_digit(cap[0]) >= 1 {
        Some(zh_digit(cap[0]) as u8)
    } else {
        None
    }
}

/// What scanning one block for a season does: the season found (if the
/// leftmost marker parses to a value) and the block with every marker
/// removed when it does.
pub open spec fn season_block(b: Seq<char>) -> (Option<u8>, Seq<char>) {
    match season_find_from(b, 0) {
        Option::None => (Option::<u8>::None, b),
        Option::Some(ix) => match season_hit(b, ix) {
            Option::Some(h) => match season_value(h.cap) {
                Option::Some(v) => (Some(v), season_remove_from(b, 0)),
                Option::None => (Option::<u8>::None, b),
            },
            Option::None => (Option::<u8>::None, b),
        },
    }
}

// ---------------------------------------------------------------------------
// Executable matching
// ---------------------------------------------------------------------------

fn digits12_at_x(v: &Vec<char>, i: usize) -> (r: usize)
    ensures
        r == digits12_at(v@, i as int),
{
    if i < v.len() && char_is_digit(v[i]) {
        if v.len() - i > 1 && char_is_digit(v[i + 1]) {
            2
        } else {
            1
        }
    } else {
        0
    }
}

/// The season marker at position `i`, as (length, captured text).
fn season_hit_x(v: &Vec<char>, i: usize) -> (r: Option<(usize, Vec<char>)>)
    ensures
        match r {
            Some(p) => season_hit(v@, i as int) == Some(SeasonHit { len: p.0 as int, cap: p.1@ })
                && 1 <= p.0 && i + p.0 <= v.len(),
            None => season_hit(v@, i as int) is None,
        },
{
    if i >= v.len() {
        return None;
    }
    if v[i] == 'S' {
        let d = digits12_at_x(v, i + 1);
        if d >= 1 {
            let cap = subrange_vec(v, i + 1, i + 1 + d);
            return Some((1 + d, cap));
        }
    }
    if matches_at_str(v, i, "Season ") {
        proof {
            reveal_strlit("Season ");
        }
        let d = digits12_at_x(v, i + 7);
        if d >= 1 {
            let cap = subrange_vec(v, i + 7, i + 7 + d);
            return Some((7 + d, cap));
        }
    }
    if (v[i] == '第' || v[i] == ' ') && v.len() - i > 1 && v[i + 1] != '\n' {
        if matches_at_str(v, i + 2, "部分") {
            proof {
                reveal_strlit("部分");
            }
            let mut cap: Vec<char> = Vec::new();
            cap.push(v[i + 1]);
            proof {
                assert(cap@ =~= seq![v@[i as int + 1]]);
            }
            return Some((4, cap));
        }
        if v.len() - i > 2 && (v[i + 2] == '季' || v[i + 2] == '期' || v[i + 2] == '部') {
            let mut cap: Vec<char> = Vec::new();
            cap.push(v[i + 1]);
            proof {
                assert(cap@ =~= seq![v@[i as int + 1]]);
            }
            return Some((3, cap));
        }
    }
    None
}

fn season_find_x(v: &Vec<char>, i: usize) -> (r: Option<usize>)
    requires
        i <= v.len(),
    ensures
        match r {
            Some(ix) => season_find_from(v@, i as int) == Some(ix as int) && i <= ix < v.len(),
            None => season_find_from(v@, i as int) is None,
        },
    decreases v.len() - i,
{
    if i >= v.len() {
        return None;
    }
    if season_hit_x(v, i).is_some() {
        Some(i)
    } else {
        season_find_x(v, i + 1)
    }
}

fn season_remove_x(v: &Vec<char>, i: usize) -> (r: Vec<char>)
    requires
        i <= v.len(),
    ensures
        r@ == season_remove_from(v@, i as int),
    decreases v.len() - i,
{
    if i >= v.len() {
        let r: Vec<char> = Vec::new();
        return r;
    }
    match season_hit_x(v, i) {
        Some(p) => {
            proof {
                assert(season_hit(v@, i as int) is Some);
            }
            season_remove_x(v, i + p.0)
        },
        None => {
            let c = v[i];
            let mut rest = season_remove_x(v, i + 1);
            let ghost rv = rest@;
            rest.insert(0, c);
            proof {
                assert(rest@ =~= seq![c] + rv);
            }
            rest
        },
    }
}

fn season_value_x(cap: &Vec<char>) -> (r: Option<u8>)
    ensures
        r == season_value(cap@),
{
    let n = cap.len();
    if n >= 1 && n <= 2 {
        let mut all: bool = true;
        if !char_is_digit(cap[0]) {
            all = false;
        }
        if n == 2 && !char_is_digit(cap[1]) {
            all = false;
        }
        if all {
            proof {
                assert(all_digits(cap@));
                assert(cap@.subrange(0, n as int) =~= cap@);
                let s = cap@;
                assert(digits_val(Seq::<char>::empty()) == 0);
                if n == 2 {
                    assert(s.drop_last() =~= seq![s[0]]);
                    assert(seq![s[0]].drop_last() =~= Seq::<char>::empty());
                    assert(seq![s[0]].last() == s[0]);
                    assert(digits_val(seq![s[0]]) == digit_val(s[0]));
                    assert(s.last() == s[1]);
                    assert(digits_val(s) == digit_val(s[0]) * 10 + digit_val(s[1]));
                    assert(digits_val(s) <= 99);
                } else {
                    assert(s.drop_last() =~= Seq::<char>::empty());
                    assert(digits_val(s) == digit_val(s[0]));
                }
            }
            let pv = parse_u32(cap, 0, n);
            let value = pv.unwrap();
            if value >= 1 {
                return Some(value as u8);
            } else {
                return None;
            }
        }
        if n == 1 {
            let z = zh_digit_x(cap[0]);
            if z >= 1 {
                return Some(z);
            }
        }
        return None;
    }
    None
}

/// The leftmost marker is the first position that carries one.
pub proof fn lemma_season_find_exact(s: Seq<char>, i: int, p: int)
    requires
        0 <= i <= p < s.len(),
        forall|j: int| i <= j < p ==> season_hit(s, j) is None,
        season_hit(s, p) is Some,
    ensures
        season_find_from(s, i) == Some(p),
    decreases p - i,
{
    if i < p {
        lemma_season_find_exact(s, i + 1, p);
    }
}

/// Removal copies a marker-free region verbatim.
pub proof fn lemma_season_remove_skip(s: Seq<char>, i: int, p: int)
    requires
        0 <= i <= p <= s.len(),
        forall|j: int| i <= j < p ==> season_hit(s, j) is None,
    ensures
        season_remove_from(s, i) == s.subrange(i, p) + season_remove_from(s, p),
    decreases p - i,
{
    if i == p {
        assert(s.subrange(i, p) =~= Seq::<char>::empty());
        assert(s.subrange(i, p) + season_remove_from(s, p) =~= season_remove_from(s, p));
    } else {
        lemma_season_remove_skip(s, i + 1, p);
        assert(seq![s[i]] + (s.subrange(i + 1, p) + season_remove_from(s, p)) =~= s.subrange(
            i,
            p,
        ) + season_remove_from(s, p));
    }
}

/// A season value that parses is at least 1: zero is not accepted as a
/// season.
pub proof fn lemma_season_value_ge1(cap: Seq<char>)
    ensures
        season_value(cap) matches Some(s) ==> s >= 1,
{
    if 1 <= cap.len() <= 2 && all_digits(cap) {
        crate::numbers::lemma_digits12_bounds(cap);
    }
}

/// The season a block scan reports is at least 1.
pub proof fn lemma_season_block_ge1(b: Seq<char>)
    ensures
        season_block(b).0 matches Some(s) ==> s >= 1,
{
    match season_find_from(b, 0) {
        Option::None => {},
        Option::Some(ix) => match season_hit(b, ix) {
            Option::Some(h) => {
                lemma_season_value_ge1(h.cap);
            },
            Option::None => {},
        },
    }
}

/// Scans one block for a season marker: returns the season value found,
/// and the block with the markers stripped when one was.
pub fn scan_season_block(b: &Vec<char>) -> (r: (Option<u8>, Vec<char>))
    ensures
        r.0 == season_block(b@).0,
        r.1@ == season_block(b@).1,
{
    match season_find_x(b, 0) {
        None => (None, crate::text::copy_chars(b)),
        Some(ix) => {
            let hit = season_hit_x(b, ix);
            match hit {
                Some(p) => {
                    match season_value_x(&p.1) {
                        Some(v) => (Some(v), season_remove_x(b, 0)),
                        None => (None, crate::text::copy_chars(b)),
                    }
                },
                None => (None, crate::text::copy_chars(b)),
            }
        },
    }
}

} // verus!
