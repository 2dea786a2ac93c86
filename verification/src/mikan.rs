use vstd::prelude::*;

use crate::config::{Mikan, MikanItem};
use crate::parser::{result_view, spec_process};
use crate::record::{Episode, EpisodeView, ParseError, revise_ep_spec};
use crate::text::{chars_eq, contains_str, has_sub, str_chars, trim, trim_chars};

verus! {

// ---------------------------------------------------------------------------
// Feed filtering
// ---------------------------------------------------------------------------

/// A skip entry matches a feed item: an entry with an empty title
/// matches by URL, one with an empty URL matches by title, and one with
/// both matches only when both agree.  All comparisons are on trimmed
/// text.
pub open spec fn skip_hit(s: MikanItem, title: Seq<char>, url: Seq<char>) -> bool {
    if trim(s.title@).len() == 0 {
        trim(url) == trim(s.url@)
    } else if trim(s.url@).len() == 0 {
        trim(title) == trim(s.title@)
    } else {
        trim(title) == trim(s.title@) && trim(url) == trim(s.url@)
    }
}

/// Some skip entry matches the item.
pub open spec fn any_skip(skips: Seq<MikanItem>, title: Seq<char>, url: Seq<char>) -> bool
    decreases skips.len(),
{
    if skips.len() == 0 {
        false
    } else {
        skip_hit(skips[0], title, url) || any_skip(skips.drop_first(), title, url)
    }
}

/// Every required substring occurs in the title.
pub open spec fn all_contained(needles: Seq<String>, title: Seq<char>) -> bool
    decreases needles.len(),
{
    if needles.len() == 0 {
        true
    } else {
        has_sub(title, needles[0]@) && all_contained(needles.drop_first(), title)
    }
}

/// A feed item is kept when no skip entry matches it and the title
/// carries every required substring.
pub open spec fn keep_spec(m: Mikan, title: Seq<char>, url: Seq<char>) -> bool {
    !any_skip(m.skip@, title, url) && all_contained(m.title_contain@, title)
}

fn skip_hit_x(s: &MikanItem, title: &Vec<char>, url: &Vec<char>) -> (r: bool)
    ensures
        r == skip_hit(*s, title@, url@),
{
    let st = trim_chars(&str_chars(s.title.as_str()));
    let su = trim_chars(&str_chars(s.url.as_str()));
    let tt = trim_chars(title);
    let ut = trim_chars(url);
    if st.len() == 0 {
        chars_eq(&ut, &su)
    } else if su.len() == 0 {
        chars_eq(&tt, &st)
    } else {
        chars_eq(&tt, &st) && chars_eq(&ut, &su)
    }
}

fn any_skip_x(skips: &Vec<MikanItem>, k: usize, title: &Vec<char>, url: &Vec<char>) -> (r: bool)
    requires
        k <= skips.len(),
    ensures
        r == any_skip(skips@.skip(k as int), title@, url@),
    decreases skips.len() - k,
{
    if k >= skips.len() {
        return false;
    }
    proof {
        assert(skips@.skip(k as int)[0] == skips@[k as int]);
        assert(skips@.skip(k as int).drop_first() =~= skips@.skip(k as int + 1));
    }
    if skip_hit_x(&skips[k], title, url) {
        true
    } else {
        any_skip_x(skips, k + 1, title, url)
    }
}

fn all_contained_x(needles: &Vec<String>, k: usize, title: &Vec<char>) -> (r: bool)
    requires
        k <= needles.len(),
    ensures
        r == all_contained(needles@.skip(k as int), title@),
    decreases needles.len() - k,
{
    if k >= needles.len() {
        return true;
    }
    proof {
        assert(needles@.skip(k as int)[0] == needles@[k as int]);
        assert(needles@.skip(k as int).drop_first() =~= needles@.skip(k as int + 1));
    }
    if contains_str(title, needles[k].as_str()) {
        all_contained_x(needles, k + 1, title)
    } else {
        false
    }
}

/// Decides whether a feed item passes the feed's skip list and
/// required-substring filters.
pub fn keep_item(m: &Mikan, title: &str, url: &str) -> (r: bool)
    ensures
        r == keep_spec(*m, title@, url@),
{
    let tv = str_chars(title);
    let uv = str_chars(url);
    proof {
        assert(m.skip@.skip(0) =~= m.skip@);
        assert(m.title_contain@.skip(0) =~= m.title_contain@);
    }
    !any_skip_x(&m.skip, 0, &tv, &uv) && all_contained_x(&m.title_contain, 0, &tv)
}

/// A batch release collects many episodes in one torrent; those are
/// left alone.  The marker is the CJK word for "batch".
pub fn is_batch_release(title: &str) -> (r: bool)
    ensures
        r == has_sub(title@, "合集"@),
{
    let tv = str_chars(title);
    contains_str(&tv, "合集")
}

// ---------------------------------------------------------------------------
// Parsing a feed title with the feed's episode revision
// ---------------------------------------------------------------------------

/// The revision applies when it keeps the episode in range.
pub open spec fn revision_fits(e: EpisodeView, delta: i8) -> bool {
    e matches EpisodeView::Ep(ep) ==> 0 <= ep.episode + delta <= u32::MAX
}

/// What parsing a feed title yields: the parsed record with the feed's
/// episode revision applied.  A revision that would leave the episode
/// range is not applied.
pub open spec fn spec_mikan_process(title: Seq<char>, delta: i8) -> Result<
    EpisodeView,
    ParseError,
> {
    match spec_process(title) {
        Result::Ok(e) => Ok(
            if revision_fits(e, delta) {
                revise_ep_spec(e, delta)
            } else {
                e
            },
        ),
        Result::Err(pe) => Err(pe),
    }
}

/// Parses a feed title and applies the feed's episode revision.
pub fn process(title: &str, m: &Mikan) -> (r: Result<Episode, ParseError>)
    ensures
        result_view(r) == spec_mikan_process(title@, m.ep_revise),
{
    match crate::parser::process(title) {
        Ok(e) => {
            let fits = match &e {
                Episode::Ep(ep) => {
                    let shifted: i64 = ep.episode as i64 + m.ep_revise as i64;
                    0 <= shifted && shifted <= u32::MAX as i64
                },
                Episode::Sp { .. } => true,
            };
            if fits {
                Ok(e.revise_ep(m.ep_revise))
            } else {
                Ok(e)
            }
        },
        Err(pe) => Err(pe),
    }
}

} // verus!
