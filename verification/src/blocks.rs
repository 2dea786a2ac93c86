use vstd::prelude::*;

use crate::lang::{char_in_class, in_class, CharClass};
use crate::numbers::{utf8_len_at_most, utf8_len_seq};
use crate::split::{delim_len_at, split_spec, split_vec, trim_nonempty, trim_nonempty_x, views, DelimKind};
use crate::text::{char_is_ws, contains_char, has_char, is_ws, trim, trim_back, trim_chars, trim_front};

verus! {

// ---------------------------------------------------------------------------
// Block splitting: a raw title becomes an ordered list of blocks
// ---------------------------------------------------------------------------

/// Full-width brackets replaced by their ASCII counterparts.
pub open spec fn normalize_char(c: char) -> char {
    if c == '\u{3010}' {
        '['
    } else if c == '\u{3011}' {
        ']'
    } else {
        c
    }
}

/// The title trimmed, with full-width brackets normalized.
pub open spec fn normalize(t: Seq<char>) -> Seq<char> {
    trim(t).map_values(|c: char| normalize_char(c))
}

fn normalize_x(t: &Vec<char>) -> (r: Vec<char>)
    ensures
        r@ == normalize(t@),
{
    let tv = trim_chars(t);
    let mut r: Vec<char> = Vec::new();
    let mut i: usize = 0;
    while i < tv.len()
        invariant
            i <= tv.len(),
            tv@ == trim(t@),
            r@ == tv@.take(i as int).map_values(|c: char| normalize_char(c)),
        decreases tv.len() - i,
    {
        let c = tv[i];
        let nc = if c == '【' {
            '['
        } else if c == '】' {
            ']'
        } else {
            c
        };
        r.push(nc);
        proof {
            assert(tv@.take(i as int).map_values(|c: char| normalize_char(c)).push(
                normalize_char(tv@[i as int]),
            ) =~= tv@.take(i as int + 1).map_values(|c: char| normalize_char(c)));
        }
        i = i + 1;
    }
    proof {
        assert(tv@.take(tv@.len() as int) =~= tv@);
    }
    r
}

// ---------------------------------------------------------------------------
// Dropping promotional noise blocks
// ---------------------------------------------------------------------------

/// A character that survives the punctuation strip: ASCII alphanumerics,
/// underscore, whitespace, CJK ideographs, kana, and the hyphen.
pub open spec fn word_char(c: char) -> bool {
    ||| (48 <= c as u32 <= 57)
    ||| (65 <= c as u32 <= 90)
    ||| (97 <= c as u32 <= 122)
    ||| c == '_'
    ||| is_ws(c)
    ||| in_class(CharClass::Cjk, c)
    ||| in_class(CharClass::Kana, c)
    ||| c == '-'
}

/// `b` with every non-word character removed.
pub open spec fn strip_nonword(b: Seq<char>) -> Seq<char>
    decreases b.len(),
{
    if b.len() == 0 {
        seq![]
    } else if word_char(b[0]) {
        seq![b[0]] + strip_nonword(b.drop_first())
    } else {
        strip_nonword(b.drop_first())
    }
}

/// A "season announcement" noise block: short, and mentioning new-season
/// promotion (it contains the ideograph for "broadcast run").
pub open spec fn is_boring(b: Seq<char>) -> bool {
    has_char(strip_nonword(b), '\u{756a}') && utf8_len_seq(strip_nonword(b)) <= 11
}

fn strip_nonword_x(b: &Vec<char>, i: usize) -> (r: Vec<char>)
    requires
        i <= b.len(),
    ensures
        r@ == strip_nonword(b@.skip(i as int)),
    decreases b.len() - i,
{
    if i >= b.len() {
        let r: Vec<char> = Vec::new();
        proof {
            assert(b@.skip(i as int) =~= Seq::<char>::empty());
        }
        r
    } else {
        let c = b[i];
        let keep = {
            let u = c as u32;
            (48 <= u && u <= 57) || (65 <= u && u <= 90) || (97 <= u && u <= 122) || c == '_'
                || char_is_ws(c) || char_in_class(CharClass::Cjk, c) || char_in_class(
                CharClass::Kana,
                c,
            ) || c == '-'
        };
        let mut rest = strip_nonword_x(b, i + 1);
        proof {
            assert(b@.skip(i as int).drop_first() =~= b@.skip(i as int + 1));
            assert(b@.skip(i as int)[0] == b@[i as int]);
        }
        if keep {
            let ghost rv = rest@;
            rest.insert(0, c);
            proof {
                assert(rest@ =~= seq![c] + rv);
            }
            rest
        } else {
            rest
        }
    }
}

fn is_boring_x(b: &Vec<char>) -> (r: bool)
    ensures
        r == is_boring(b@),
{
    let stripped = strip_nonword_x(b, 0);
    proof {
        assert(b@.skip(0) =~= b@);
    }
    contains_char(&stripped, '番') && utf8_len_at_most(&stripped, 11)
}

/// The blocks that are not noise.
pub open spec fn drop_boring(bs: Seq<Seq<char>>) -> Seq<Seq<char>>
    decreases bs.len(),
{
    if bs.len() == 0 {
        seq![]
    } else if is_boring(bs[0]) {
        drop_boring(bs.drop_first())
    } else {
        seq![bs[0]] + drop_boring(bs.drop_first())
    }
}

fn drop_boring_x(bs: Vec<Vec<char>>) -> (r: Vec<Vec<char>>)
    ensures
        views(r@) == drop_boring(views(bs@)),
    decreases bs.len(),
{
    let mut bs = bs;
    let ghost orig = bs@;
    if bs.len() == 0 {
        let r: Vec<Vec<char>> = Vec::new();
        proof {
            assert(views(r@) =~= Seq::<Seq<char>>::empty());
            assert(views(orig) =~= Seq::<Seq<char>>::empty());
        }
        r
    } else {
        let first = bs.remove(0);
        proof {
            assert(bs@ =~= orig.drop_first());
            assert(views(orig).drop_first() =~= views(orig.drop_first()));
            assert(views(orig)[0] == first@);
        }
        let boring = is_boring_x(&first);
        let mut rest = drop_boring_x(bs);
        if boring {
            rest
        } else {
            proof {
                crate::split::lemma_views_insert0(rest@, first);
            }
            let ghost rv = views(rest@);
            rest.insert(0, first);
            proof {
                assert(views(rest@) =~= seq![first@] + rv);
            }
            rest
        }
    }
}

// ---------------------------------------------------------------------------
// The block pipeline
// ---------------------------------------------------------------------------

/// The bracket-delimited blocks of the normalized title, trimmed and
/// nonempty.
pub open spec fn raw_blocks(t: Seq<char>) -> Seq<Seq<char>> {
    trim_nonempty(split_spec(DelimKind::Bracket, normalize(t)))
}

/// When bracket splitting yields exactly a group block and one big
/// remainder, the remainder is re-split on spaces and hyphens.
pub open spec fn resplit(bs: Seq<Seq<char>>) -> Seq<Seq<char>> {
    if bs.len() == 2 {
        seq![bs[0]] + trim_nonempty(split_spec(DelimKind::SpaceHyphen, bs[1]))
    } else {
        bs
    }
}

/// The ordered blocks of a raw title: bracket split, fallback re-split,
/// noise blocks dropped.
pub open spec fn blocks_spec(t: Seq<char>) -> Seq<Seq<char>> {
    drop_boring(resplit(raw_blocks(t)))
}

// ---------------------------------------------------------------------------
// Titles without brackets
// ---------------------------------------------------------------------------

/// An ASCII or full-width bracket, as the block splitter sees them.
pub open spec fn is_title_bracket(c: char) -> bool {
    c == '[' || c == ']' || c == '\u{3010}' || c == '\u{3011}'
}

/// No character of `s` is a bracket.
pub open spec fn bracket_free(s: Seq<char>) -> bool {
    forall|i: int| 0 <= i < s.len() ==> !is_title_bracket(s[i])
}

proof fn lemma_trim_front_bracket_free(s: Seq<char>)
    requires
        bracket_free(s),
    ensures
        bracket_free(trim_front(s)),
    decreases s.len(),
{
    if s.len() > 0 && is_ws(s[0]) {
        assert(bracket_free(s.drop_first())) by {
            assert(forall|i: int|
                0 <= i < s.drop_first().len() ==> s.drop_first()[i] == s[i + 1]
                    && !is_title_bracket(s[i + 1]));
        }
        lemma_trim_front_bracket_free(s.drop_first());
    }
}

proof fn lemma_trim_back_bracket_free(s: Seq<char>)
    requires
        bracket_free(s),
    ensures
        bracket_free(trim_back(s)),
    decreases s.len(),
{
    if s.len() > 0 && is_ws(s.last()) {
        assert(bracket_free(s.drop_last())) by {
            assert(forall|i: int|
                0 <= i < s.drop_last().len() ==> s.drop_last()[i] == s[i]
                    && !is_title_bracket(s[i]));
        }
        lemma_trim_back_bracket_free(s.drop_last());
    }
}

proof fn lemma_drop_boring_len(bs: Seq<Seq<char>>)
    ensures
        drop_boring(bs).len() <= bs.len(),
    decreases bs.len(),
{
    if bs.len() > 0 {
        lemma_drop_boring_len(bs.drop_first());
    }
}

/// A title without brackets yields at most one block: the splitter
/// cannot find two blocks in it.
pub proof fn lemma_unbracketed_blocks(t: Seq<char>)
    requires
        bracket_free(t),
    ensures
        blocks_spec(t).len() <= 1,
{
    lemma_trim_front_bracket_free(t);
    lemma_trim_back_bracket_free(trim_front(t));
    let tt = trim(t);
    let n = normalize(t);
    assert(n =~= tt);
    assert(forall|j: int|
        0 <= j < n.len() ==> delim_len_at(DelimKind::Bracket, n, j) == 0);
    crate::split::lemma_split_no_delims(DelimKind::Bracket, n, 0, seq![]);
    assert(seq![] + n.skip(0) =~= n);
    assert(split_spec(DelimKind::Bracket, n) == seq![n]);
    let raw = raw_blocks(t);
    assert(seq![n].drop_first() =~= Seq::<Seq<char>>::empty());
    assert(trim_nonempty(Seq::<Seq<char>>::empty()) == Seq::<Seq<char>>::empty());
    assert(raw.len() <= 1);
    assert(resplit(raw) == raw);
    lemma_drop_boring_len(raw);
}

/// Splits a raw title into its blocks.
pub fn split_blocks(t: &Vec<char>) -> (r: Vec<Vec<char>>)
    ensures
        views(r@) == blocks_spec(t@),
{
    let n = normalize_x(t);
    let raw = split_vec(DelimKind::Bracket, &n);
    let mut bs = trim_nonempty_x(raw);
    if bs.len() == 2 {
        let ghost pre = views(bs@);
        let second = bs.pop().unwrap();
        proof {
            assert(views(bs@) =~= pre.drop_last());
            assert(second@ == pre[1]);
        }
        let re = split_vec(DelimKind::SpaceHyphen, &second);
        let mut tail = trim_nonempty_x(re);
        let ghost tv = views(tail@);
        bs.append(&mut tail);
        proof {
            assert(pre.drop_last() =~= seq![pre[0]]);
            assert(views(bs@) =~= seq![pre[0]] + tv);
            assert(views(bs@) =~= resplit(raw_blocks(t@)));
        }
        drop_boring_x(bs)
    } else {
        drop_boring_x(bs)
    }
}

} // verus!
