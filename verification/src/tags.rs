use vstd::prelude::*;

use crate::name::opt_view;
use crate::split::{split_spec, split_vec, trim_nonempty, trim_nonempty_x, views, DelimKind};
use crate::text::{contains_char, contains_str, copy_chars, has_char, has_sub, matches_at, matches_at_str};

verus! {

// ---------------------------------------------------------------------------
// Tag tokens
// ---------------------------------------------------------------------------

/// The tag tokens of the blocks after the name: every block split on
/// single spaces, the pieces trimmed, empty pieces dropped, in order.
pub open spec fn tag_tokens(bs: Seq<Seq<char>>) -> Seq<Seq<char>>
    decreases bs.len(),
{
    if bs.len() == 0 {
        seq![]
    } else {
        trim_nonempty(split_spec(DelimKind::SingleSpace, bs[0])) + tag_tokens(bs.drop_first())
    }
}

fn tag_tokens_x(bs: &Vec<Vec<char>>, k: usize) -> (r: Vec<Vec<char>>)
    requires
        k <= bs.len(),
    ensures
        views(r@) == tag_tokens(views(bs@).skip(k as int)),
    decreases bs.len() - k,
{
    if k >= bs.len() {
        let r: Vec<Vec<char>> = Vec::new();
        proof {
            assert(views(bs@).skip(k as int) =~= Seq::<Seq<char>>::empty());
            assert(views(r@) =~= Seq::<Seq<char>>::empty());
        }
        return r;
    }
    let ghost tail = views(bs@).skip(k as int);
    let mut head = trim_nonempty_x(split_vec(DelimKind::SingleSpace, &bs[k]));
    let mut rest = tag_tokens_x(bs, k + 1);
    proof {
        assert(tail[0] == bs@[k as int]@);
        assert(tail.drop_first() =~= views(bs@).skip(k as int + 1));
    }
    let ghost hv = views(head@);
    let ghost rv = views(rest@);
    head.append(&mut rest);
    proof {
        assert(views(head@) =~= hv + rv);
    }
    head
}

// ---------------------------------------------------------------------------
// The three tag categories
// ---------------------------------------------------------------------------

/// A subtitle-language tag: a CJK subtitling word character, or one of
/// the romanized markers.
pub open spec fn is_sub_tag(t: Seq<char>) -> bool {
    ||| has_char(t, '\u{7b80}')
    ||| has_char(t, '\u{7e41}')
    ||| has_char(t, '\u{65e5}')
    ||| has_char(t, '\u{5b57}')
    ||| has_char(t, '\u{5e55}')
    ||| has_sub(t, "CH"@)
    ||| has_sub(t, "BIG5"@)
    ||| has_sub(t, "GB"@)
}

/// A resolution tag.
pub open spec fn is_res_tag(t: Seq<char>) -> bool {
    ||| has_sub(t, "1080"@)
    ||| has_sub(t, "720"@)
    ||| has_sub(t, "2160"@)
    ||| has_sub(t, "4K"@)
}

/// A source tag.
pub open spec fn is_src_tag(t: Seq<char>) -> bool {
    ||| has_sub(t, "B-Global"@)
    ||| has_sub(t, "Baha"@)
    ||| has_sub(t, "baha"@)
    ||| has_sub(t, "Bilibili"@)
    ||| has_sub(t, "bilibili"@)
    ||| has_sub(t, "AT-X"@)
    ||| has_sub(t, "Web"@)
}

fn is_sub_tag_x(t: &Vec<char>) -> (r: bool)
    ensures
        r == is_sub_tag(t@),
{
    contains_char(t, '简') || contains_char(t, '繁') || contains_char(t, '日') || contains_char(
        t,
        '字',
    ) || contains_char(t, '幕') || contains_str(t, "CH") || contains_str(t, "BIG5")
        || contains_str(t, "GB")
}

fn is_res_tag_x(t: &Vec<char>) -> (r: bool)
    ensures
        r == is_res_tag(t@),
{
    contains_str(t, "1080") || contains_str(t, "720") || contains_str(t, "2160") || contains_str(
        t,
        "4K",
    )
}

fn is_src_tag_x(t: &Vec<char>) -> (r: bool)
    ensures
        r == is_src_tag(t@),
{
    contains_str(t, "B-Global") || contains_str(t, "Baha") || contains_str(t, "baha")
        || contains_str(t, "Bilibili") || contains_str(t, "bilibili") || contains_str(t, "AT-X")
        || contains_str(t, "Web")
}

// ---------------------------------------------------------------------------
// The scan: first match wins per category, categories independent
// ---------------------------------------------------------------------------

pub open spec fn scan_tags_go(
    toks: Seq<Seq<char>>,
    k: int,
    sub: Option<Seq<char>>,
    res: Option<Seq<char>>,
    src: Option<Seq<char>>,
) -> (Option<Seq<char>>, Option<Seq<char>>, Option<Seq<char>>)
    decreases toks.len() - k,
{
    if k < 0 || k >= toks.len() {
        (sub, res, src)
    } else {
        let t = toks[k];
        let sub2 = if sub is None && is_sub_tag(t) {
            Some(t)
        } else {
            sub
        };
        let res2 = if res is None && is_res_tag(t) {
            Some(t)
        } else {
            res
        };
        let src2 = if src is None && is_src_tag(t) {
            Some(t)
        } else {
            src
        };
        scan_tags_go(toks, k + 1, sub2, res2, src2)
    }
}

// ---------------------------------------------------------------------------
// Cleaning the subtitle tag
// ---------------------------------------------------------------------------

/// Length of the container-noise suffix marker at `i` (`_MP4` or
/// `_MKV`), or 0.
pub open spec fn subnoise_len_at(s: Seq<char>, i: int) -> int {
    if matches_at(s, i, "_MP4"@) {
        4
    } else if matches_at(s, i, "_MKV"@) {
        4
    } else {
        0
    }
}

/// The subtitle tag with every container-noise marker removed.
pub open spec fn clean_sub_from(s: Seq<char>, i: int) -> Seq<char>
    decreases s.len() - i,
{
    if i < 0 || i >= s.len() {
        seq![]
    } else if subnoise_len_at(s, i) == 4 && i + 4 <= s.len() {
        clean_sub_from(s, i + 4)
    } else {
        seq![s[i]] + clean_sub_from(s, i + 1)
    }
}

fn clean_sub_x(v: &Vec<char>, i: usize) -> (r: Vec<char>)
    requires
        i <= v.len(),
    ensures
        r@ == clean_sub_from(v@, i as int),
    decreases v.len() - i,
{
    if i >= v.len() {
        let r: Vec<char> = Vec::new();
        return r;
    }
    let m4 = matches_at_str(v, i, "_MP4");
    let mkv = if m4 {
        false
    } else {
        matches_at_str(v, i, "_MKV")
    };
    if m4 || mkv {
        proof {
            reveal_strlit("_MP4");
            reveal_strlit("_MKV");
        }
        clean_sub_x(v, i + 4)
    } else {
        let c = v[i];
        let mut rest = clean_sub_x(v, i + 1);
        let ghost rv = rest@;
        rest.insert(0, c);
        proof {
            assert(rest@ =~= seq![c] + rv);
        }
        rest
    }
}

// ---------------------------------------------------------------------------
// The whole tag extraction
// ---------------------------------------------------------------------------

/// The `(sub, resolution, source)` tags of the blocks after the name.
pub open spec fn find_tags(bs: Seq<Seq<char>>) -> (
    Option<Seq<char>>,
    Option<Seq<char>>,
    Option<Seq<char>>,
) {
    let g = scan_tags_go(tag_tokens(bs), 0, None, None, None);
    let sub = match g.0 {
        Option::Some(s) => Some(clean_sub_from(s, 0)),
        Option::None => None,
    };
    (sub, g.1, g.2)
}

fn scan_tags_go_x(
    toks: &Vec<Vec<char>>,
    k: usize,
    sub: Option<Vec<char>>,
    res: Option<Vec<char>>,
    src: Option<Vec<char>>,
) -> (r: (Option<Vec<char>>, Option<Vec<char>>, Option<Vec<char>>))
    requires
        k <= toks.len(),
    ensures
        ({
            let g = scan_tags_go(views(toks@), k as int, opt_view(sub), opt_view(res), opt_view(src));
            opt_view(r.0) == g.0 && opt_view(r.1) == g.1 && opt_view(r.2) == g.2
        }),
    decreases toks.len() - k,
{
    if k >= toks.len() {
        return (sub, res, src);
    }
    let t = &toks[k];
    proof {
        assert(views(toks@)[k as int] == t@);
    }
    let sub2 = if sub.is_none() && is_sub_tag_x(t) {
        Some(copy_chars(t))
    } else {
        sub
    };
    let res2 = if res.is_none() && is_res_tag_x(t) {
        Some(copy_chars(t))
    } else {
        res
    };
    let src2 = if src.is_none() && is_src_tag_x(t) {
        Some(copy_chars(t))
    } else {
        src
    };
    scan_tags_go_x(toks, k + 1, sub2, res2, src2)
}

/// Extracts the subtitle-language, resolution, and source tags from the
/// blocks after the name.
pub fn extract_tags(bs: &Vec<Vec<char>>, from: usize) -> (r: (
    Option<Vec<char>>,
    Option<Vec<char>>,
    Option<Vec<char>>,
))
    requires
        from <= bs.len(),
    ensures
        ({
            let g = find_tags(views(bs@).skip(from as int));
            opt_view(r.0) == g.0 && opt_view(r.1) == g.1 && opt_view(r.2) == g.2
        }),
{
    let toks = tag_tokens_x(bs, from);
    let g = scan_tags_go_x(&toks, 0, None, None, None);
    let sub = match g.0 {
        Some(s) => Some(clean_sub_x(&s, 0)),
        None => None,
    };
    (sub, g.1, g.2)
}

} // verus!
