use vstd::prelude::*;

use crate::text::{char_is_ws, is_ws, trim, trim_chars};

verus! {

// ---------------------------------------------------------------------------
// Splitting a character sequence on delimiters
// ---------------------------------------------------------------------------

/// The delimiter families the parser splits on.  Each one mirrors a
/// delimiter used by a particular parsing stage.
#[derive(Clone, Copy)]
pub enum DelimKind {
    /// A `[` or `]` bracket (block splitting).
    Bracket,
    /// A space or hyphen (fallback re-splitting of an unbracketed title).
    SpaceHyphen,
    /// `/`, two whitespace characters, or `-` followed by two whitespace
    /// characters (first pass of name decomposition).
    NameTop,
    /// An underscore (second pass of name decomposition).
    Underscore,
    /// The three characters `" - "` (third pass of name decomposition).
    SpaceDashSpace,
    /// A single space (final pass of name decomposition, and tag tokens).
    SingleSpace,
}

/// Length of the delimiter of the given kind found at position `i` of `s`,
/// or `0` when no delimiter starts there.
pub open spec fn delim_len_at(kind: DelimKind, s: Seq<char>, i: int) -> int {
    if i < 0 || i >= s.len() {
        0
    } else {
        match kind {
            DelimKind::Bracket => if s[i] == '[' || s[i] == ']' {
                1
            } else {
                0
            },
            DelimKind::SpaceHyphen => if s[i] == ' ' || s[i] == '-' {
                1
            } else {
                0
            },
            DelimKind::NameTop => if s[i] == '/' {
                1
            } else if is_ws(s[i]) && i + 1 < s.len() && is_ws(s[i + 1]) {
                2
            } else if s[i] == '-' && i + 2 < s.len() && is_ws(s[i + 1]) && is_ws(s[i + 2]) {
                3
            } else {
                0
            },
            DelimKind::Underscore => if s[i] == '_' {
                1
            } else {
                0
            },
            DelimKind::SpaceDashSpace => if i + 2 < s.len() && s[i] == ' ' && s[i + 1] == '-' && s[i
                + 2] == ' ' {
                3
            } else {
                0
            },
            DelimKind::SingleSpace => if s[i] == ' ' {
                1
            } else {
                0
            },
        }
    }
}

fn delim_len_x(kind: DelimKind, v: &Vec<char>, i: usize) -> (r: usize)
    requires
        i < v.len(),
    ensures
        r == delim_len_at(kind, v@, i as int),
        r <= 3,
{
    let n = v.len();
    match kind {
        DelimKind::Bracket => if v[i] == '[' || v[i] == ']' {
            1
        } else {
            0
        },
        DelimKind::SpaceHyphen => if v[i] == ' ' || v[i] == '-' {
            1
        } else {
            0
        },
        DelimKind::NameTop => if v[i] == '/' {
            1
        } else if char_is_ws(v[i]) && n - i > 1 && char_is_ws(v[i + 1]) {
            2
        } else if v[i] == '-' && n - i > 2 && char_is_ws(v[i + 1]) && char_is_ws(v[i + 2]) {
            3
        } else {
            0
        },
        DelimKind::Underscore => if v[i] == '_' {
            1
        } else {
            0
        },
        DelimKind::SpaceDashSpace => if n - i > 2 && v[i] == ' ' && v[i + 1] == '-' && v[i + 2]
            == ' ' {
            3
        } else {
            0
        },
        DelimKind::SingleSpace => if v[i] == ' ' {
            1
        } else {
            0
        },
    }
}

/// The views of a sequence of character vectors.
pub open spec fn views(v: Seq<Vec<char>>) -> Seq<Seq<char>> {
    Seq::new(v.len(), |i: int| v[i]@)
}

pub proof fn lemma_views_insert0(v: Seq<Vec<char>>, x: Vec<char>)
    ensures
        views(v.insert(0, x)) =~= seq![x@] + views(v),
{
}

/// The fragments of `s[i..]`, split at every delimiter of the given kind,
/// with `cur` the fragment accumulated so far.  Scanning is left to right,
/// so of two overlapping delimiter occurrences the earlier one wins.
pub open spec fn split_go(kind: DelimKind, s: Seq<char>, i: int, cur: Seq<char>) -> Seq<Seq<char>>
    decreases s.len() - i,
{
    if i < 0 || i >= s.len() {
        seq![cur]
    } else if delim_len_at(kind, s, i) >= 1 {
        seq![cur] + split_go(kind, s, i + delim_len_at(kind, s, i), seq![])
    } else {
        split_go(kind, s, i + 1, cur.push(s[i]))
    }
}

/// The fragments of `s`, split at every delimiter of the given kind.
/// Adjacent delimiters yield empty fragments, as `str::split` does.
pub open spec fn split_spec(kind: DelimKind, s: Seq<char>) -> Seq<Seq<char>> {
    split_go(kind, s, 0, seq![])
}

/// A sequence without delimiters splits into itself alone.
pub proof fn lemma_split_no_delims(kind: DelimKind, s: Seq<char>, i: int, cur: Seq<char>)
    requires
        0 <= i <= s.len(),
        forall|j: int| i <= j < s.len() ==> delim_len_at(kind, s, j) == 0,
    ensures
        split_go(kind, s, i, cur) == seq![cur + s.skip(i)],
    decreases s.len() - i,
{
    if i >= s.len() {
        assert(s.skip(i) =~= Seq::<char>::empty());
        assert(cur + s.skip(i) =~= cur);
    } else {
        lemma_split_no_delims(kind, s, i + 1, cur.push(s[i]));
        assert(cur.push(s[i]) + s.skip(i + 1) =~= cur + s.skip(i));
    }
}

fn split_go_x(kind: DelimKind, v: &Vec<char>, i: usize, cur: Vec<char>) -> (r: Vec<Vec<char>>)
    requires
        i <= v.len(),
    ensures
        views(r@) == split_go(kind, v@, i as int, cur@),
    decreases v.len() - i,
{
    if i >= v.len() {
        let mut r: Vec<Vec<char>> = Vec::new();
        r.push(cur);
        proof {
            assert(views(r@) =~= seq![cur@]);
        }
        r
    } else {
        let l = delim_len_x(kind, v, i);
        if l >= 1 {
            let mut r = split_go_x(kind, v, i + l, Vec::new());
            proof {
                lemma_views_insert0(r@, cur);
            }
            let ghost rv = views(r@);
            r.insert(0, cur);
            proof {
                assert(views(r@) =~= seq![cur@] + rv);
            }
            r
        } else {
            let c = v[i];
            let mut cur2 = cur;
            cur2.push(c);
            split_go_x(kind, v, i + 1, cur2)
        }
    }
}

/// Splits `v` at every delimiter of the given kind.
pub fn split_vec(kind: DelimKind, v: &Vec<char>) -> (r: Vec<Vec<char>>)
    ensures
        views(r@) == split_spec(kind, v@),
{
    split_go_x(kind, v, 0, Vec::new())
}

// ---------------------------------------------------------------------------
// Trimming and dropping empty fragments
// ---------------------------------------------------------------------------

/// Each fragment trimmed, whitespace-only fragments dropped.
pub open spec fn trim_nonempty(bs: Seq<Seq<char>>) -> Seq<Seq<char>>
    decreases bs.len(),
{
    if bs.len() == 0 {
        seq![]
    } else {
        let rest = trim_nonempty(bs.drop_first());
        if trim(bs[0]).len() > 0 {
            seq![trim(bs[0])] + rest
        } else {
            rest
        }
    }
}

pub fn trim_nonempty_x(bs: Vec<Vec<char>>) -> (r: Vec<Vec<char>>)
    ensures
        views(r@) == trim_nonempty(views(bs@)),
    decreases bs.len(),
{
    let mut bs = bs;
    let ghost orig = bs@;
    if bs.len() == 0 {
        let r: Vec<Vec<char>> = Vec::new();
        proof {
            assert(views(r@) =~= Seq::<Seq<char>>::empty());
            assert(views(orig) =~= Seq::<Seq<char>>::empty());
        }
        r
    } else {
        let first = bs.remove(0);
        proof {
            assert(bs@ =~= orig.drop_first());
            assert(views(orig).drop_first() =~= views(orig.drop_first()));
            assert(views(orig)[0] == first@);
        }
        let t = trim_chars(&first);
        let mut rest = trim_nonempty_x(bs);
        if t.len() > 0 {
            proof {
                lemma_views_insert0(rest@, t);
            }
            let ghost rv = views(rest@);
            rest.insert(0, t);
            proof {
                assert(views(rest@) =~= seq![t@] + rv);
            }
            rest
        } else {
            rest
        }
    }
}

/// Fragments that remain nonempty after trimming, kept untrimmed.
/// This mirrors filtering on `!s.trim().is_empty()` without trimming
/// the fragments themselves.
pub open spec fn keep_nonblank(bs: Seq<Seq<char>>) -> Seq<Seq<char>>
    decreases bs.len(),
{
    if bs.len() == 0 {
        seq![]
    } else {
        let rest = keep_nonblank(bs.drop_first());
        if trim(bs[0]).len() > 0 {
            seq![bs[0]] + rest
        } else {
            rest
        }
    }
}

pub fn keep_nonblank_x(bs: Vec<Vec<char>>) -> (r: Vec<Vec<char>>)
    ensures
        views(r@) == keep_nonblank(views(bs@)),
    decreases bs.len(),
{
    let mut bs = bs;
    let ghost orig = bs@;
    if bs.len() == 0 {
        let r: Vec<Vec<char>> = Vec::new();
        proof {
            assert(views(r@) =~= Seq::<Seq<char>>::empty());
            assert(views(orig) =~= Seq::<Seq<char>>::empty());
        }
        r
    } else {
        let first = bs.remove(0);
        proof {
            assert(bs@ =~= orig.drop_first());
            assert(views(orig).drop_first() =~= views(orig.drop_first()));
            assert(views(orig)[0] == first@);
        }
        let t = trim_chars(&first);
        let mut rest = keep_nonblank_x(bs);
        if t.len() > 0 {
            proof {
                lemma_views_insert0(rest@, first);
            }
            let ghost rv = views(rest@);
            rest.insert(0, first);
            proof {
                assert(views(rest@) =~= seq![first@] + rv);
            }
            rest
        } else {
            rest
        }
    }
}

// ---------------------------------------------------------------------------
// Joining fragments with single spaces
// ---------------------------------------------------------------------------

/// The fragments of `bs` joined with single spaces, as `[_]::join(" ")`
/// does.
pub open spec fn join_spaces(bs: Seq<Seq<char>>) -> Seq<char>
    decreases bs.len(),
{
    if bs.len() == 0 {
        seq![]
    } else if bs.len() == 1 {
        bs[0]
    } else {
        bs[0] + seq![' '] + join_spaces(bs.drop_first())
    }
}

pub fn join_spaces_x(bs: &Vec<Vec<char>>, i: usize) -> (r: Vec<char>)
    requires
        i <= bs.len(),
    ensures
        r@ == join_spaces(views(bs@).skip(i as int)),
    decreases bs.len() - i,
{
    let mut r: Vec<char> = Vec::new();
    if i >= bs.len() {
        proof {
            assert(views(bs@).skip(i as int) =~= Seq::<Seq<char>>::empty());
        }
        return r;
    }
    let b = &bs[i];
    let mut k: usize = 0;
    while k < b.len()
        invariant
            k <= b.len(),
            b@ == bs@[i as int]@,
            r@ == b@.take(k as int),
        decreases b.len() - k,
    {
        r.push(b[k]);
        proof {
            assert(b@.take(k as int).push(b@[k as int]) =~= b@.take(k as int + 1));
        }
        k = k + 1;
    }
    proof {
        assert(b@.take(b@.len() as int) =~= b@);
    }
    if i + 1 >= bs.len() {
        proof {
            let tail = views(bs@).skip(i as int);
            assert(tail.len() == 1);
            assert(tail[0] == bs@[i as int]@);
        }
        return r;
    }
    r.push(' ');
    let rest = join_spaces_x(bs, i + 1);
    let mut r = r;
    let mut k: usize = 0;
    while k < rest.len()
        invariant
            k <= rest.len(),
            r@ == bs@[i as int]@ + seq![' '] + rest@.take(k as int),
        decreases rest.len() - k,
    {
        r.push(rest[k]);
        proof {
            assert((bs@[i as int]@ + seq![' '] + rest@.take(k as int)).push(rest@[k as int])
                =~= bs@[i as int]@ + seq![' '] + rest@.take(k as int + 1));
        }
        k = k + 1;
    }
    proof {
        let tail = views(bs@).skip(i as int);
        assert(rest@.take(rest@.len() as int) =~= rest@);
        assert(tail.len() >= 2);
        assert(tail[0] == bs@[i as int]@);
        assert(tail.drop_first() =~= views(bs@).skip(i as int + 1));
    }
    r
}

} // verus!
