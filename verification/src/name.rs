use vstd::prelude::*;

use crate::lang::{find_lang, lang_of, Lang};
use crate::split::{keep_nonblank, keep_nonblank_x, split_spec, split_vec, views, DelimKind};
use crate::text::{concat_chars, contains_char, contains_str, copy_chars, has_char, has_sub, trim, trim_chars};

verus! {

// ---------------------------------------------------------------------------
// The region-exclusive annotation
// ---------------------------------------------------------------------------
//
// Some releases carry a "regional licensing only" annotation; it is
// stripped before the name is decomposed.  The annotation is a bracketed
// nine-character phrase, with the bracket, the first character, and two
// inner characters each in simplified or traditional form.

/// Does the region-exclusive annotation start at `i`?  It is nine
/// characters long.
pub open spec fn region_hit(s: Seq<char>, i: int) -> bool {
    &&& 0 <= i
    &&& i + 9 <= s.len()
    &&& (s[i] == '(' || s[i] == '\u{ff08}')
    &&& (s[i + 1] == '\u{4ec5}' || s[i + 1] == '\u{50c5}')
    &&& s[i + 2] == '\u{9650}'
    &&& s[i + 3] == '\u{6e2f}'
    &&& s[i + 4] == '\u{6fb3}'
    &&& s[i + 5] == '\u{53f0}'
    &&& s[i + 6] == '\u{5730}'
    &&& (s[i + 7] == '\u{533a}' || s[i + 7] == '\u{5340}')
    &&& (s[i + 8] == '\u{ff09}' || s[i + 8] == ')')
}

/// `s` with every region-exclusive annotation removed, scanning from `i`.
pub open spec fn region_remove_from(s: Seq<char>, i: int) -> Seq<char>
    decreases s.len() - i,
{
    if i < 0 || i >= s.len() {
        seq![]
    } else if region_hit(s, i) {
        region_remove_from(s, i + 9)
    } else {
        seq![s[i]] + region_remove_from(s, i + 1)
    }
}

fn region_hit_x(v: &Vec<char>, i: usize) -> (r: bool)
    requires
        i < v.len(),
    ensures
        r == region_hit(v@, i as int),
{
    if v.len() - i < 9 {
        return false;
    }
    (v[i] == '(' || v[i] == '（') && (v[i + 1] == '仅' || v[i + 1] == '僅') && v[i + 2] == '限'
        && v[i + 3] == '港' && v[i + 4] == '澳' && v[i + 5] == '台' && v[i + 6] == '地' && (v[i
        + 7] == '区' || v[i + 7] == '區') && (v[i + 8] == '）' || v[i + 8] == ')')
}

fn region_remove_x(v: &Vec<char>, i: usize) -> (r: Vec<char>)
    requires
        i <= v.len(),
    ensures
        r@ == region_remove_from(v@, i as int),
    decreases v.len() - i,
{
    if i >= v.len() {
        let r: Vec<char> = Vec::new();
        return r;
    }
    if region_hit_x(v, i) {
        region_remove_x(v, i + 9)
    } else {
        let c = v[i];
        let mut rest = region_remove_x(v, i + 1);
        let ghost rv = rest@;
        rest.insert(0, c);
        proof {
            assert(rest@ =~= seq![c] + rv);
        }
        rest
    }
}

/// The name block trimmed, with the region-exclusive annotation removed.
pub open spec fn name_v1(name: Seq<char>) -> Seq<char> {
    region_remove_from(trim(name), 0)
}

// ---------------------------------------------------------------------------
// The cascading fragment split
// ---------------------------------------------------------------------------

/// First split: on `/`, double whitespace, or `-` before double
/// whitespace, keeping the fragments that are not blank.
pub open spec fn frags0(nv: Seq<char>) -> Seq<Seq<char>> {
    keep_nonblank(split_spec(DelimKind::NameTop, nv))
}

/// Second split: when the first yields a single fragment, retry on
/// underscores, then on `" - "`.
pub open spec fn frags1(nv: Seq<char>) -> Seq<Seq<char>> {
    if frags0(nv).len() == 1 {
        if has_char(nv, '_') {
            split_spec(DelimKind::Underscore, nv)
        } else if has_sub(nv, " - "@) {
            split_spec(DelimKind::SpaceDashSpace, nv)
        } else {
            frags0(nv)
        }
    } else {
        frags0(nv)
    }
}

/// Coalescing fold: adjacent space-separated tokens of the same
/// classified language merge into one fragment.
pub open spec fn coalesce_go(items: Seq<Seq<char>>, k: int, acc: Seq<Seq<char>>) -> Seq<Seq<char>>
    decreases items.len() - k,
{
    if k < 0 || k >= items.len() {
        acc
    } else if acc.len() > 0 && lang_of(acc.last()) == lang_of(items[k]) {
        coalesce_go(items, k + 1, acc.update(acc.len() - 1, acc.last() + seq![' '] + items[k]))
    } else {
        coalesce_go(items, k + 1, acc.push(items[k]))
    }
}

pub open spec fn coalesce(items: Seq<Seq<char>>) -> Seq<Seq<char>> {
    coalesce_go(items, 0, seq![])
}

/// Third split: when still a single fragment, split it on single spaces
/// and coalesce adjacent tokens of one language.
pub open spec fn frags2(nv: Seq<char>) -> Seq<Seq<char>> {
    if frags1(nv).len() == 1 {
        coalesce(split_spec(DelimKind::SingleSpace, frags1(nv)[0]))
    } else {
        frags1(nv)
    }
}

fn coalesce_go_x(items: &Vec<Vec<char>>, k: usize, acc: Vec<Vec<char>>) -> (r: Vec<Vec<char>>)
    requires
        k <= items.len(),
    ensures
        views(r@) == coalesce_go(views(items@), k as int, views(acc@)),
    decreases items.len() - k,
{
    if k >= items.len() {
        return acc;
    }
    let mut acc = acc;
    let ghost acc0 = views(acc@);
    let it = &items[k];
    proof {
        assert(views(items@)[k as int] == it@);
    }
    let do_merge = if acc.len() > 0 {
        let lang_last = find_lang(&acc[acc.len() - 1]);
        let lang_it = find_lang(it);
        proof {
            assert(acc@[acc@.len() - 1]@ == acc0.last());
        }
        lang_last == lang_it
    } else {
        false
    };
    if do_merge {
        let last = acc.pop().unwrap();
        let mut merged = copy_chars(&last);
        merged.push(' ');
        let merged = concat_chars(&merged, it);
        proof {
            assert(merged@ =~= acc0.last() + seq![' '] + it@);
        }
        acc.push(merged);
        proof {
            assert(views(acc@) =~= acc0.update(acc0.len() - 1, acc0.last() + seq![' '] + it@));
        }
        coalesce_go_x(items, k + 1, acc)
    } else {
        let piece = copy_chars(it);
        acc.push(piece);
        proof {
            assert(views(acc@) =~= acc0.push(it@));
        }
        coalesce_go_x(items, k + 1, acc)
    }
}

// ---------------------------------------------------------------------------
// Assigning fragments to languages
// ---------------------------------------------------------------------------

/// First fragment of each language wins; fragments of no recognized
/// language are dropped; assigned fragments are trimmed.
/// The result is `(name_en, name_zh, name_jp)`.
pub open spec fn assign_go(
    frags: Seq<Seq<char>>,
    k: int,
    en: Option<Seq<char>>,
    zh: Option<Seq<char>>,
    jp: Option<Seq<char>>,
) -> (Option<Seq<char>>, Option<Seq<char>>, Option<Seq<char>>)
    decreases frags.len() - k,
{
    if k < 0 || k >= frags.len() {
        (en, zh, jp)
    } else {
        let l = lang_of(frags[k]);
        if l == Lang::En && en is None {
            assign_go(frags, k + 1, Some(trim(frags[k])), zh, jp)
        } else if l == Lang::Zh && zh is None {
            assign_go(frags, k + 1, en, Some(trim(frags[k])), jp)
        } else if l == Lang::Jp && jp is None {
            assign_go(frags, k + 1, en, zh, Some(trim(frags[k])))
        } else {
            assign_go(frags, k + 1, en, zh, jp)
        }
    }
}

/// The three names extracted from a name block.
pub open spec fn name_triplet(name: Seq<char>) -> (
    Option<Seq<char>>,
    Option<Seq<char>>,
    Option<Seq<char>>,
) {
    assign_go(frags2(name_v1(name)), 0, None, None, None)
}

/// The view of an optional character vector.
pub open spec fn opt_view(o: Option<Vec<char>>) -> Option<Seq<char>> {
    match o {
        Option::Some(v) => Some(v@),
        Option::None => None,
    }
}

fn assign_go_x(
    frags: &Vec<Vec<char>>,
    k: usize,
    en: Option<Vec<char>>,
    zh: Option<Vec<char>>,
    jp: Option<Vec<char>>,
) -> (r: (Option<Vec<char>>, Option<Vec<char>>, Option<Vec<char>>))
    requires
        k <= frags.len(),
    ensures
        ({
            let g = assign_go(views(frags@), k as int, opt_view(en), opt_view(zh), opt_view(jp));
            opt_view(r.0) == g.0 && opt_view(r.1) == g.1 && opt_view(r.2) == g.2
        }),
    decreases frags.len() - k,
{
    if k >= frags.len() {
        return (en, zh, jp);
    }
    let f = &frags[k];
    proof {
        assert(views(frags@)[k as int] == f@);
    }
    let l = find_lang(f);
    if l == Lang::En && en.is_none() {
        assign_go_x(frags, k + 1, Some(trim_chars(f)), zh, jp)
    } else if l == Lang::Zh && zh.is_none() {
        assign_go_x(frags, k + 1, en, Some(trim_chars(f)), jp)
    } else if l == Lang::Jp && jp.is_none() {
        assign_go_x(frags, k + 1, en, zh, Some(trim_chars(f)))
    } else {
        assign_go_x(frags, k + 1, en, zh, jp)
    }
}

/// Decomposes a name block into its English, Chinese, and Japanese
/// variants.
pub fn name_process(name: &Vec<char>) -> (r: (
    Option<Vec<char>>,
    Option<Vec<char>>,
    Option<Vec<char>>,
))
    ensures
        opt_view(r.0) == name_triplet(name@).0,
        opt_view(r.1) == name_triplet(name@).1,
        opt_view(r.2) == name_triplet(name@).2,
{
    let trimmed = trim_chars(name);
    let nv = region_remove_x(&trimmed, 0);
    let f0 = keep_nonblank_x(split_vec(DelimKind::NameTop, &nv));
    let f1 = if f0.len() == 1 {
        if contains_char(&nv, '_') {
            split_vec(DelimKind::Underscore, &nv)
        } else if contains_str(&nv, " - ") {
            split_vec(DelimKind::SpaceDashSpace, &nv)
        } else {
            f0
        }
    } else {
        f0
    };
    proof {
        assert(views(f1@) == frags1(name_v1(name@)));
    }
    let f2 = if f1.len() == 1 {
        let first = &f1[0];
        proof {
            assert(views(f1@)[0] == first@);
        }
        let items = split_vec(DelimKind::SingleSpace, first);
        let empty_acc: Vec<Vec<char>> = Vec::new();
        proof {
            assert(views(empty_acc@) =~= Seq::<Seq<char>>::empty());
        }
        coalesce_go_x(&items, 0, empty_acc)
    } else {
        f1
    };
    proof {
        assert(views(f2@) == frags2(name_v1(name@)));
    }
    assign_go_x(&f2, 0, None, None, None)
}

} // verus!
