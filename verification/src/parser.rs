use vstd::prelude::*;

use crate::blocks::{blocks_spec, split_blocks};
use crate::epnum::{ep1_value, ep1_value_x, ep2_find_from, ep2_find_x, ep2_hit, ep2_take_x};
use crate::name::{name_process, name_triplet, opt_view};
use crate::numbers::digits_val;
use crate::record::{Ep, EpView, Episode, EpisodeView, ParseError};
use crate::season::{scan_season_block, season_block};
use crate::split::{join_spaces, join_spaces_x, views};
use crate::tags::{extract_tags, find_tags};
use crate::text::{str_chars, string_of, trim, trim_chars};

verus! {

// ---------------------------------------------------------------------------
// Pass 1: season extraction and standalone episode blocks
// ---------------------------------------------------------------------------

/// The state after the first scan: the season found, the episode found,
/// the inclusive end of the name blocks, and the blocks with season
/// markers stripped.
pub struct Scan1 {
    pub season: Option<u8>,
    pub ep: Option<u32>,
    pub end: Option<int>,
    pub bs: Seq<Seq<char>>,
}

/// One forward pass over the blocks after the release group.  While no
/// season has been found, each block is scanned for a season marker,
/// which is stripped from it.  While no episode has been found, each
/// (possibly stripped) block is tested against the standalone episode
/// grammar; the block before the match closes the name.
pub open spec fn scan1_go(
    bs: Seq<Seq<char>>,
    k: int,
    season: Option<u8>,
    ep: Option<u32>,
    end: Option<int>,
) -> Scan1
    decreases bs.len() - k,
{
    if k < 1 || k >= bs.len() {
        Scan1 { season, ep, end, bs }
    } else {
        let sres = if season is None {
            season_block(bs[k])
        } else {
            (season, bs[k])
        };
        let bs2 = bs.update(k, sres.1);
        if ep is None && ep1_value(sres.1) is Some {
            scan1_go(bs2, k + 1, sres.0, ep1_value(sres.1), Some(k - 1))
        } else {
            scan1_go(bs2, k + 1, sres.0, ep, end)
        }
    }
}

pub open spec fn scan1(bs: Seq<Seq<char>>) -> Scan1 {
    scan1_go(bs, 1, None, None, None)
}

fn scan1_x(bs: Vec<Vec<char>>, k: usize, season: Option<u8>, ep: Option<u32>, end: Option<usize>)
    -> (r: (Option<u8>, Option<u32>, Option<usize>, Vec<Vec<char>>))
    requires
        1 <= k,
        ep is Some ==> end is Some,
        end matches Some(e) ==> e + 2 <= bs.len(),
    ensures
        ({
            let g = scan1_go(views(bs@), k as int, season, ep, opt_end(end));
            r.0 == g.season && r.1 == g.ep && opt_end(r.2) == g.end && views(r.3@) == g.bs
        }),
        r.1 is Some ==> r.2 is Some,
        r.2 matches Some(e) ==> e + 2 <= r.3.len(),
    decreases bs.len() - k,
{
    let mut bs = bs;
    if k >= bs.len() {
        return (season, ep, end, bs);
    }
    let ghost bs0 = views(bs@);
    let (season2, b2) = if season.is_none() {
        scan_season_block(&bs[k])
    } else {
        (season, crate::text::copy_chars(&bs[k]))
    };
    proof {
        assert(bs0[k as int] == bs@[k as int]@);
    }
    let epv = ep1_value_x(&b2);
    bs[k] = b2;
    proof {
        assert(views(bs@) =~= bs0.update(k as int, bs@[k as int]@));
    }
    if ep.is_none() && epv.is_some() {
        scan1_x(bs, k + 1, season2, epv, Some(k - 1))
    } else {
        scan1_x(bs, k + 1, season2, ep, end)
    }
}

/// The end index as a mathematical option.
pub open spec fn opt_end(o: Option<usize>) -> Option<int> {
    match o {
        Option::Some(e) => Some(e as int),
        Option::None => None,
    }
}

// ---------------------------------------------------------------------------
// Pass 2: episode numbers embedded in a name block
// ---------------------------------------------------------------------------

/// The outcome of the second scan: no episode anywhere, an episode
/// match with text trailing it (refused), or an episode with the block
/// it was found in truncated at the match.
pub enum Scan2 {
    NotFound,
    Trailer,
    Found { bs: Seq<Seq<char>>, ep: u32, end: int },
}

/// Scans the blocks after the release group for an embedded episode
/// marker; the first block with a usable marker decides.
pub open spec fn scan2_go(bs: Seq<Seq<char>>, k: int) -> Scan2
    decreases bs.len() - k,
{
    if k < 1 || k >= bs.len() {
        Scan2::NotFound
    } else {
        match ep2_find_from(bs[k], 0) {
            Option::None => scan2_go(bs, k + 1),
            Option::Some(ix) => match ep2_hit(bs[k], ix) {
                Option::Some(h) => {
                    let e = if 0 <= h.end <= bs[k].len() {
                        h.end
                    } else {
                        bs[k].len() as int
                    };
                    if trim(bs[k].skip(e)).len() > 0 {
                        Scan2::Trailer
                    } else {
                        Scan2::Found {
                            bs: bs.update(k, bs[k].take(ix)),
                            ep: digits_val(h.cap) as u32,
                            end: k,
                        }
                    }
                },
                Option::None => Scan2::NotFound,
            },
        }
    }
}

fn scan2_x(bs: Vec<Vec<char>>, k: usize) -> (r: Result<Option<(u32, usize, Vec<Vec<char>>)>, ()>)
    requires
        1 <= k,
    ensures
        ({
            let g = scan2_go(views(bs@), k as int);
            match r {
                Ok(Some(p)) => g matches Scan2::Found { bs: gbs, ep, end } && p.0 == ep && p.1
                    == end && views(p.2@) == gbs && k <= p.1 && p.1 + 1 <= p.2.len(),
                Ok(None) => g is NotFound,
                Err(()) => g is Trailer,
            }
        }),
    decreases bs.len() - k,
{
    let mut bs = bs;
    if k >= bs.len() {
        return Ok(None);
    }
    let ghost bs0 = views(bs@);
    proof {
        assert(bs0[k as int] == bs@[k as int]@);
    }
    match ep2_find_x(&bs[k], 0) {
        None => scan2_x(bs, k + 1),
        Some(ix) => {
            match ep2_take_x(&bs[k], ix) {
                Some(p) => {
                    let tail = crate::text::subrange_vec(&bs[k], p.0, bs[k].len());
                    proof {
                        assert(tail@ =~= bs@[k as int]@.skip(p.0 as int));
                    }
                    let tt = trim_chars(&tail);
                    if tt.len() > 0 {
                        Err(())
                    } else {
                        let head = crate::text::subrange_vec(&bs[k], 0, ix);
                        proof {
                            assert(head@ =~= bs@[k as int]@.take(ix as int));
                        }
                        bs[k] = head;
                        proof {
                            assert(views(bs@) =~= bs0.update(k as int, bs@[k as int]@));
                        }
                        Ok(Some((p.1, k, bs)))
                    }
                },
                None => {
                    proof {
                        assert(false);
                    }
                    Ok(None)
                },
            }
        },
    }
}

// ---------------------------------------------------------------------------
// Building the record
// ---------------------------------------------------------------------------

/// The record built from the scanned blocks: the first block is the
/// release group, the blocks up to `end` joined with spaces form the
/// name block, the blocks after it carry the tags, and a missing season
/// defaults to 1.  A name block that yields no name at all is refused.
pub open spec fn finish_spec(bs: Seq<Seq<char>>, season: Option<u8>, ep: u32, end: int) -> Result<
    EpisodeView,
    ParseError,
> {
    let e1 = if 1 <= end + 1 <= bs.len() {
        end + 1
    } else {
        bs.len() as int
    };
    let name_block = join_spaces(bs.subrange(1, e1));
    let names = name_triplet(name_block);
    if names.0 is None && names.1 is None && names.2 is None {
        Err(ParseError::MissingNameBlock)
    } else {
        let tags = find_tags(bs.skip(e1));
        Ok(
            EpisodeView::Ep(
                EpView {
                    sub_group: bs[0],
                    season: match season {
                        Option::Some(s) => s,
                        Option::None => 1,
                    },
                    name_en: names.0,
                    name_zh: names.1,
                    name_jp: names.2,
                    episode: ep,
                    sub: tags.0,
                    resolution: tags.1,
                    source: tags.2,
                },
            ),
        )
    }
}

/// The season of a record built by `finish_spec` is at least 1 whenever
/// the found season was.
pub open spec fn season_or_default(season: Option<u8>) -> u8 {
    match season {
        Option::Some(s) => s,
        Option::None => 1,
    }
}

fn opt_string(o: Option<Vec<char>>) -> (r: Option<String>)
    ensures
        crate::record::opt_str_view(r) == opt_view(o),
{
    match o {
        Some(v) => Some(string_of(&v)),
        None => None,
    }
}

fn finish_x(bs: Vec<Vec<char>>, season: Option<u8>, ep: u32, end: usize) -> (r: Result<
    Episode,
    ParseError,
>)
    requires
        end + 1 <= bs.len(),
    ensures
        match r {
            Ok(e) => finish_spec(views(bs@), season, ep, end as int) == Ok::<
                EpisodeView,
                ParseError,
            >(e@),
            Err(pe) => finish_spec(views(bs@), season, ep, end as int) == Err::<
                EpisodeView,
                ParseError,
            >(pe),
        },
        r matches Ok(e) ==> e@ matches EpisodeView::Ep(ev) && ev.season == season_or_default(
            season,
        ) && (ev.name_en is Some || ev.name_zh is Some || ev.name_jp is Some),
{
    let ghost bsv = views(bs@);
    let name_vec = {
        let sub = vec_slice(&bs, 1, end + 1);
        proof {
            assert(views(sub@) =~= bsv.subrange(1, end as int + 1));
            assert(views(sub@).skip(0) =~= views(sub@));
        }
        join_spaces_x(&sub, 0)
    };
    let names = name_process(&name_vec);
    match (&names.0, &names.1, &names.2) {
        (None, None, None) => Err(ParseError::MissingNameBlock),
        _ => {
            let tagsv = vec_slice(&bs, end + 1, bs.len());
            proof {
                assert(views(tagsv@) =~= bsv.skip(end as int + 1));
                assert(views(tagsv@).skip(0) =~= views(tagsv@));
            }
            let tags = extract_tags(&tagsv, 0);
            let group = string_of(&bs[0]);
            let season_final: u8 = match season {
                Some(s) => s,
                None => 1,
            };
            Ok(
                Episode::Ep(
                    Ep {
                        sub_group: group,
                        season: season_final,
                        name_en: opt_string(names.0),
                        name_zh: opt_string(names.1),
                        name_jp: opt_string(names.2),
                        episode: ep,
                        sub: opt_string(tags.0),
                        resolution: opt_string(tags.1),
                        source: opt_string(tags.2),
                    },
                ),
            )
        },
    }
}

/// Copies the blocks `bs[a..b]`.
fn vec_slice(bs: &Vec<Vec<char>>, a: usize, b: usize) -> (r: Vec<Vec<char>>)
    requires
        a <= b <= bs.len(),
    ensures
        views(r@) =~= views(bs@).subrange(a as int, b as int),
{
    let mut r: Vec<Vec<char>> = Vec::new();
    let mut i: usize = a;
    proof {
        assert(views(r@) =~= views(bs@).subrange(a as int, a as int));
    }
    while i < b
        invariant
            a <= i <= b <= bs.len(),
            views(r@) =~= views(bs@).subrange(a as int, i as int),
        decreases b - i,
    {
        let piece = crate::text::copy_chars(&bs[i]);
        r.push(piece);
        proof {
            assert(views(r@) =~= views(bs@).subrange(a as int, i as int).push(bs@[i as int]@));
            assert(views(bs@).subrange(a as int, i as int).push(bs@[i as int]@) =~= views(
                bs@,
            ).subrange(a as int, i as int + 1));
        }
        i = i + 1;
    }
    r
}

// ---------------------------------------------------------------------------
// The parser
// ---------------------------------------------------------------------------

/// What parsing a raw title yields: fewer than two blocks, or no episode
/// number anywhere, give a special record holding the trimmed title;
/// an embedded match with trailing text, or a name block without any
/// name, is an error; otherwise a regular record.
pub open spec fn spec_process(title: Seq<char>) -> Result<EpisodeView, ParseError> {
    let bs = blocks_spec(title);
    if bs.len() < 2 {
        Ok(EpisodeView::Sp(trim(title)))
    } else {
        let s1 = scan1(bs);
        match s1.ep {
            Option::Some(ep) => match s1.end {
                Option::Some(end) => finish_spec(s1.bs, s1.season, ep, end),
                Option::None => Err(ParseError::MissingNameBlock),
            },
            Option::None => match scan2_go(s1.bs, 1) {
                Scan2::Trailer => Err(ParseError::AmbiguousEpisodeTrailer),
                Scan2::NotFound => Ok(EpisodeView::Sp(trim(title))),
                Scan2::Found { bs: bs2, ep, end } => finish_spec(bs2, s1.season, ep, end),
            },
        }
    }
}

/// The view of a parse result.
pub open spec fn result_view(r: Result<Episode, ParseError>) -> Result<EpisodeView, ParseError> {
    match r {
        Result::Ok(e) => Ok(e@),
        Result::Err(pe) => Err(pe),
    }
}

/// Parses a raw release title into an episode record.
///
/// A title that cannot be decomposed comes back as a special record
/// holding the trimmed title; a regular record always carries a season
/// of at least 1 and at least one of the three names.
pub fn process(title: &str) -> (r: Result<Episode, ParseError>)
    ensures
        result_view(r) == spec_process(title@),
        r matches Ok(e) ==> (e@ matches EpisodeView::Ep(ev) ==> ev.season >= 1 && (
        ev.name_en is Some || ev.name_zh is Some || ev.name_jp is Some)),
{
    let tv = str_chars(title);
    let bs = split_blocks(&tv);
    if bs.len() < 2 {
        let trimmed = trim_chars(&tv);
        return Ok(Episode::Sp { name: string_of(&trimmed) });
    }
    let ghost bsv = views(bs@);
    let s1 = scan1_x(bs, 1, None, None, None);
    proof {
        lemma_scan1_season(bsv, 1, None, None, None);
    }
    match s1.1 {
        Some(ep) => {
            let end = match s1.2 {
                Some(e) => e,
                None => {
                    proof {
                        assert(false);
                    }
                    0
                },
            };
            finish_x(s1.3, s1.0, ep, end)
        },
        None => {
            match scan2_x(s1.3, 1) {
                Err(()) => Err(ParseError::AmbiguousEpisodeTrailer),
                Ok(None) => {
                    let trimmed = trim_chars(&tv);
                    Ok(Episode::Sp { name: string_of(&trimmed) })
                },
                Ok(Some(p)) => finish_x(p.2, s1.0, p.0, p.1),
            }
        },
    }
}

/// Format-then-reparse: the season and episode written into a library
/// file stem are exactly the ones the internal extractors read back
/// from it, for every show name that carries no season or episode
/// marker of its own (a name holding one, such as a name ending in a
/// season phrase, would shadow the written values).
#[verifier::rlimit(100)]
pub proof fn lemma_file_stem_round_trip(name: Seq<char>, season: u8, episode: u32)
    requires
        1 <= season <= 99,
        forall|i: int|
            0 <= i < name.len() ==> crate::season::season_hit(
                crate::record::stem_spec(name, season, episode),
                i,
            ) is None,
        forall|i: int|
            0 <= i < name.len() ==> crate::epnum::ep2_hit(
                name + seq![' ', 'E'] + crate::numbers::dec_digits(episode as int),
                i,
            ) is None,
    ensures
        season_block(crate::record::stem_spec(name, season, episode)).0 == Some(season),
        season_block(crate::record::stem_spec(name, season, episode)).1 == name + seq![' ', 'E']
            + crate::numbers::dec_digits(episode as int),
        crate::epnum::ep2_block_value(
            name + seq![' ', 'E'] + crate::numbers::dec_digits(episode as int),
        ) == Some(episode),
{
    reveal_strlit(" S");
    reveal_strlit("E");
    reveal_strlit("Season ");
    reveal_strlit("部分");
    let nl = name.len() as int;
    let pad = crate::numbers::dec_digits_pad2(season as int);
    let dec = crate::numbers::dec_digits(episode as int);
    crate::numbers::lemma_pad2_two_digits(season as int);
    crate::numbers::lemma_digits_val_of_dec(episode as int);
    let stem = crate::record::stem_spec(name, season, episode);
    assert(dec.len() >= 1) by {
        if episode >= 10 {
            assert(dec == crate::numbers::dec_digits(episode as int / 10).push(
                crate::numbers::digit_char(episode as int % 10),
            ));
        }
    }
    let el = dec.len() as int;
    assert(stem.len() == nl + 5 + el);
    assert(stem[nl] == ' ');
    assert(stem[nl + 1] == 'S');
    assert(stem[nl + 2] == pad[0] && crate::numbers::is_digit(pad[0]));
    assert(stem[nl + 3] == pad[1] && crate::numbers::is_digit(pad[1]));
    assert(stem[nl + 4] == 'E');
    assert(forall|j: int|
        nl + 5 <= j < stem.len() ==> stem[j] == dec[j - (nl + 5)] && crate::numbers::is_digit(
            #[trigger] stem[j],
        ));
    // the space before the season marker carries no marker of its own
    assert(crate::season::season_hit(stem, nl) is None) by {
        if crate::text::matches_at(stem, nl, "Season "@) {
            assert(stem[nl] == "Season "@[0]);
            assert(false);
        }
        if crate::text::matches_at(stem, nl + 2, "部分"@) {
            assert(stem[nl + 2] == "部分"@[0]);
            assert(false);
        }
    }
    // the marker at the written `S` is found, with the padded digits as
    // its capture
    assert(crate::season::digits12_at(stem, nl + 2) == 2);
    assert(stem.subrange(nl + 2, nl + 4) =~= pad);
    assert(crate::season::season_hit(stem, nl + 1) == Some(
        crate::season::SeasonHit { len: 3, cap: pad },
    ));
    assert(forall|j: int| 0 <= j < nl + 1 ==> crate::season::season_hit(stem, j) is None);
    crate::season::lemma_season_find_exact(stem, 0, nl + 1);
    assert(crate::season::season_value(pad) == Some(season));
    // removal strips exactly the marker
    assert(forall|j: int|
        nl + 4 <= j < stem.len() ==> #[trigger] crate::season::season_hit(stem, j) is None) by {
        assert forall|j: int|
            nl + 4 <= j < stem.len() implies #[trigger] crate::season::season_hit(stem, j)
            is None by {
            if crate::text::matches_at(stem, j, "Season "@) {
                assert(stem[j] == 'S');
                assert(false);
            }
        }
    }
    crate::season::lemma_season_remove_skip(stem, 0, nl + 1);
    assert(crate::season::season_remove_from(stem, nl + 1)
        == crate::season::season_remove_from(stem, nl + 4));
    crate::season::lemma_season_remove_skip(stem, nl + 4, stem.len() as int);
    assert(crate::season::season_remove_from(stem, stem.len() as int)
        =~= Seq::<char>::empty());
    let cleaned = name + seq![' ', 'E'] + dec;
    assert(crate::season::season_remove_from(stem, 0) =~= cleaned);
    assert(season_block(stem).0 == Some(season));
    assert(season_block(stem).1 == cleaned);
    // the episode is read back from the cleaned stem
    assert(cleaned.len() == nl + 2 + el);
    assert(cleaned[nl] == ' ');
    assert(cleaned[nl + 1] == 'E');
    assert(forall|j: int|
        nl + 2 <= j < cleaned.len() ==> cleaned[j] == dec[j - (nl + 2)]
            && crate::numbers::is_digit(#[trigger] cleaned[j]));
    crate::epnum::lemma_run_len_exact(cleaned, nl + 2, cleaned.len() as int);
    assert(cleaned.subrange(nl + 2, cleaned.len() as int) =~= dec);
    assert(crate::epnum::ep2_core(cleaned, nl + 1) == Some(
        crate::epnum::EpHit { end: cleaned.len() as int, cap: dec },
    ));
    assert(crate::epnum::ep2_hit(cleaned, nl) == Some(
        crate::epnum::EpHit { end: cleaned.len() as int, cap: dec },
    ));
    assert(crate::epnum::ep2_ok_at(cleaned, nl));
    assert(forall|j: int| 0 <= j < nl ==> !crate::epnum::ep2_ok_at(cleaned, j));
    crate::epnum::lemma_ep2_find_exact(cleaned, 0, nl);
    assert(cleaned.skip(cleaned.len() as int) =~= Seq::<char>::empty());
    assert(trim(Seq::<char>::empty()).len() == 0);
    assert(crate::epnum::ep2_block_value(cleaned) == Some(episode));
}

/// A title without bracket delimiters cannot be decomposed into blocks:
/// it parses to a special record holding the trimmed title exactly,
/// whatever else it contains.
pub proof fn lemma_unbracketed_is_special(title: Seq<char>)
    requires
        crate::blocks::bracket_free(title),
    ensures
        spec_process(title) == Ok::<EpisodeView, ParseError>(EpisodeView::Sp(trim(title))),
{
    crate::blocks::lemma_unbracketed_blocks(title);
}

/// The season the first scan reports is at least 1: the grammar only
/// accepts positive season values.
pub proof fn lemma_scan1_season(
    bs: Seq<Seq<char>>,
    k: int,
    season: Option<u8>,
    ep: Option<u32>,
    end: Option<int>,
)
    requires
        season matches Some(s) ==> s >= 1,
    ensures
        scan1_go(bs, k, season, ep, end).season matches Some(s) ==> s >= 1,
    decreases bs.len() - k,
{
    if k < 1 || k >= bs.len() {
    } else {
        let sres = if season is None {
            season_block(bs[k])
        } else {
            (season, bs[k])
        };
        if season is None {
            crate::season::lemma_season_block_ge1(bs[k]);
        }
        let bs2 = bs.update(k, sres.1);
        if ep is None && ep1_value(sres.1) is Some {
            lemma_scan1_season(bs2, k + 1, sres.0, ep1_value(sres.1), Some(k - 1));
        } else {
            lemma_scan1_season(bs2, k + 1, sres.0, ep, end);
        }
    }
}

} // verus!
