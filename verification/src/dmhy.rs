use vstd::prelude::*;

use crate::numbers::{dec_digits, push_dec_u32};
use crate::text::{has_sub, push_str_chars, str_chars, string_of};

verus! {

// ---------------------------------------------------------------------------
// The dmhy resource site
// ---------------------------------------------------------------------------
//
// The site is scraped over HTTP outside the library; here live the
// query URLs and the decisions the scraper applies.

/// The dmhy API endpoint.
#[derive(Debug, PartialEq, Eq)]
pub struct Dmhy {
    pub base_uri: String,
}

/// The decimal writing of a possibly negative number.
pub open spec fn dec_int(n: int) -> Seq<char> {
    if n < 0 {
        seq!['-'] + dec_digits(-n)
    } else {
        dec_digits(n)
    }
}

/// The identifier a filter contributes to a query: the wildcard id 0
/// when the filter is absent.
pub open spec fn opt_id(o: Option<i32>) -> int {
    match o {
        Option::Some(n) => n as int,
        Option::None => 0,
    }
}

/// The keywords joined with `+`.
pub open spec fn join_plus(ks: Seq<String>) -> Seq<char>
    decreases ks.len(),
{
    if ks.len() == 0 {
        seq![]
    } else if ks.len() == 1 {
        ks[0]@
    } else {
        ks[0]@ + seq!['+'] + join_plus(ks.drop_first())
    }
}

fn push_dec_i32(out: &mut Vec<char>, n: i32)
    ensures
        final(out)@ == old(out)@ + dec_int(n as int),
{
    if n < 0 {
        out.push('-');
        let wide: i64 = n as i64;
        let mag: u32 = (-wide) as u32;
        push_dec_u32(out, mag);
        proof {
            assert(old(out)@.push('-') + dec_digits(-(n as int)) =~= old(out)@ + dec_int(
                n as int,
            ));
        }
    } else {
        push_dec_u32(out, n as u32);
    }
}

fn push_join_plus(out: &mut Vec<char>, ks: &Vec<String>, k: usize)
    requires
        k <= ks.len(),
    ensures
        final(out)@ == old(out)@ + join_plus(ks@.skip(k as int)),
    decreases ks.len() - k,
{
    if k >= ks.len() {
        proof {
            assert(ks@.skip(k as int) =~= Seq::<String>::empty());
            assert(old(out)@ + join_plus(ks@.skip(k as int)) =~= old(out)@);
        }
        return ;
    }
    push_str_chars(out, ks[k].as_str());
    proof {
        assert(ks@.skip(k as int)[0] == ks@[k as int]);
        assert(ks@.skip(k as int).drop_first() =~= ks@.skip(k as int + 1));
    }
    if k + 1 >= ks.len() {
        proof {
            assert(old(out)@ + ks@[k as int]@ =~= old(out)@ + join_plus(ks@.skip(k as int)));
        }
        return ;
    }
    out.push('+');
    push_join_plus(out, ks, k + 1);
    proof {
        assert((old(out)@ + ks@[k as int]@).push('+') + join_plus(ks@.skip(k as int + 1))
            =~= old(out)@ + join_plus(ks@.skip(k as int)));
    }
}

impl Dmhy {
    /// The advanced-search page that lists release groups and resource
    /// types.
    pub fn advanced_search_url(&self) -> (r: String)
        ensures
            r@ == self.base_uri@ + "/topics/advanced-search?team_id=0&sort_id=0&orderby="@,
    {
        let mut out = str_chars(self.base_uri.as_str());
        push_str_chars(&mut out, "/topics/advanced-search?team_id=0&sort_id=0&orderby=");
        string_of(&out)
    }

    /// The first listing page for a keyword search, filtered by
    /// resource type and release group.
    pub fn res_list_url(
        &self,
        keywords: &Vec<String>,
        sub_group_id: Option<i32>,
        res_type_id: Option<i32>,
    ) -> (r: String)
        ensures
            r@ == self.base_uri@ + "/topics/list/page/1?keyword="@ + join_plus(keywords@)
                + "&sort_id="@ + dec_int(opt_id(res_type_id)) + "&team_id="@ + dec_int(
                opt_id(sub_group_id),
            ) + "&order=date-desc"@,
    {
        let mut out = str_chars(self.base_uri.as_str());
        push_str_chars(&mut out, "/topics/list/page/1?keyword=");
        proof {
            assert(keywords@.skip(0) =~= keywords@);
        }
        push_join_plus(&mut out, keywords, 0);
        push_str_chars(&mut out, "&sort_id=");
        match res_type_id {
            Some(n) => push_dec_i32(&mut out, n),
            None => push_dec_i32(&mut out, 0),
        }
        push_str_chars(&mut out, "&team_id=");
        match sub_group_id {
            Some(n) => push_dec_i32(&mut out, n),
            None => push_dec_i32(&mut out, 0),
        }
        push_str_chars(&mut out, "&order=date-desc");
        string_of(&out)
    }
}

/// The tracker ordering applied to scraped magnet links: trackers that
/// name the preferred host sort first.
pub fn prefer_tracker(t: &str) -> (r: bool)
    ensures
        r == has_sub(t@, "tr.bangumi.moe%3A6969"@),
{
    let v = str_chars(t);
    crate::text::contains_str(&v, "tr.bangumi.moe%3A6969")
}

} // verus!
