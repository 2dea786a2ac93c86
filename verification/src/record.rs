use vstd::prelude::*;

use crate::numbers::{dec_digits, dec_digits_pad2, push_dec_pad2, push_dec_u32};
use crate::text::{push_str_chars, str_chars, string_of};

verus! {

// ---------------------------------------------------------------------------
// The episode record
// ---------------------------------------------------------------------------

/// A fully decomposed release: the release group, season and episode
/// numbers, the show name in up to three languages, and the optional
/// metadata tags.
#[derive(Debug, PartialEq)]
pub struct Ep {
    pub sub_group: String,
    pub season: u8,
    pub name_en: Option<String>,
    pub name_zh: Option<String>,
    pub name_jp: Option<String>,
    pub episode: u32,
    pub sub: Option<String>,
    pub resolution: Option<String>,
    pub source: Option<String>,
}

/// A parsed release title: either a regular episode, or a special
/// release whose title is kept verbatim because no episode number could
/// be located.
#[derive(Debug, PartialEq)]
pub enum Episode {
    Ep(Ep),
    Sp { name: String },
}

/// The ways a title can be rejected.
#[derive(Clone, Copy, Debug, PartialEq, Eq, Structural)]
pub enum ParseError {
    /// An embedded episode match left unconsumed text behind it: the
    /// title has a shape the parser does not understand, and guessing is
    /// refused.
    AmbiguousEpisodeTrailer,
    /// An episode was found but no name could be derived.
    MissingNameBlock,
    /// A regular record with all three names absent was asked for a
    /// display name.
    NoNameAvailable,
}

// ---------------------------------------------------------------------------
// Views
// ---------------------------------------------------------------------------

pub open spec fn opt_str_view(o: Option<String>) -> Option<Seq<char>> {
    match o {
        Option::Some(s) => Some(s@),
        Option::None => None,
    }
}

pub open spec fn opt_sref_view(o: Option<&str>) -> Option<Seq<char>> {
    match o {
        Option::Some(s) => Some(s@),
        Option::None => None,
    }
}

/// The mathematical value of a regular episode record.
pub struct EpView {
    pub sub_group: Seq<char>,
    pub season: u8,
    pub name_en: Option<Seq<char>>,
    pub name_zh: Option<Seq<char>>,
    pub name_jp: Option<Seq<char>>,
    pub episode: u32,
    pub sub: Option<Seq<char>>,
    pub resolution: Option<Seq<char>>,
    pub source: Option<Seq<char>>,
}

/// The mathematical value of a parsed title.
pub enum EpisodeView {
    Ep(EpView),
    Sp(Seq<char>),
}

impl View for Ep {
    type V = EpView;

    open spec fn view(&self) -> EpView {
        EpView {
            sub_group: self.sub_group@,
            season: self.season,
            name_en: opt_str_view(self.name_en),
            name_zh: opt_str_view(self.name_zh),
            name_jp: opt_str_view(self.name_jp),
            episode: self.episode,
            sub: opt_str_view(self.sub),
            resolution: opt_str_view(self.resolution),
            source: opt_str_view(self.source),
        }
    }
}

impl View for Episode {
    type V = EpisodeView;

    open spec fn view(&self) -> EpisodeView {
        match self {
            Episode::Ep(ep) => EpisodeView::Ep(ep@),
            Episode::Sp { name } => EpisodeView::Sp(name@),
        }
    }
}

// ---------------------------------------------------------------------------
// Display name
// ---------------------------------------------------------------------------

/// The display name of a record: an override when given; otherwise the
/// raw title of a special release, or the first available of the
/// Chinese, Japanese, and English names.
pub open spec fn display_name(e: EpisodeView, over: Option<Seq<char>>) -> Result<
    Seq<char>,
    ParseError,
> {
    match over {
        Option::Some(n) => Ok(n),
        Option::None => match e {
            EpisodeView::Sp(n) => Ok(n),
            EpisodeView::Ep(ep) => match ep.name_zh {
                Option::Some(n) => Ok(n),
                Option::None => match ep.name_jp {
                    Option::Some(n) => Ok(n),
                    Option::None => match ep.name_en {
                        Option::Some(n) => Ok(n),
                        Option::None => Err(ParseError::NoNameAvailable),
                    },
                },
            },
        },
    }
}

/// The display name never fails on a record that carries at least one
/// name: it is total, and, being a function of the record alone,
/// deterministic.
pub proof fn lemma_display_name_total(e: EpisodeView, over: Option<Seq<char>>)
    requires
        e matches EpisodeView::Ep(ep) ==> ep.name_zh is Some || ep.name_jp is Some
            || ep.name_en is Some,
    ensures
        display_name(e, over) is Ok,
{
}

// ---------------------------------------------------------------------------
// Path and file-name formatting
// ---------------------------------------------------------------------------

/// `"{name}/Season {season:02}"`.
pub open spec fn season_path(name: Seq<char>, season: u8) -> Seq<char> {
    name + "/Season "@ + dec_digits_pad2(season as int)
}

/// `"{name} S{season:02}E{episode}"`.
pub open spec fn stem_spec(name: Seq<char>, season: u8, episode: u32) -> Seq<char> {
    name + " S"@ + dec_digits_pad2(season as int) + "E"@ + dec_digits(episode as int)
}

/// Formats the library directory for a show and season.
pub fn link_path(name: &str, season: &u8) -> (r: String)
    ensures
        r@ == season_path(name@, *season),
{
    let mut out: Vec<char> = str_chars(name);
    push_str_chars(&mut out, "/Season ");
    push_dec_pad2(&mut out, *season as u32);
    proof {
        assert(dec_digits_pad2(*season as u32 as int) == dec_digits_pad2(*season as int));
    }
    string_of(&out)
}

/// Formats the library file stem for a regular episode.
pub fn link_file_name(name: &str, season: &u8, episode: &u32) -> (r: String)
    ensures
        r@ == stem_spec(name@, *season, *episode),
{
    let mut out: Vec<char> = str_chars(name);
    push_str_chars(&mut out, " S");
    push_dec_pad2(&mut out, *season as u32);
    proof {
        assert(dec_digits_pad2(*season as u32 as int) == dec_digits_pad2(*season as int));
    }
    push_str_chars(&mut out, "E");
    push_dec_u32(&mut out, *episode);
    string_of(&out)
}

// ---------------------------------------------------------------------------
// Stripping a video extension
// ---------------------------------------------------------------------------

/// ASCII-case-insensitive equality with a lower-case letter.
pub open spec fn eq_ci(a: char, lower: char) -> bool {
    a == lower || (97 <= lower as u32 <= 122 && a as u32 + 32 == lower as u32)
}

/// `s` ends with `.` then the three extension characters, compared
/// ASCII-case-insensitively.
pub open spec fn ends_with_ext(s: Seq<char>, e1: char, e2: char, e3: char) -> bool {
    s.len() >= 4 && s[s.len() - 4] == '.' && eq_ci(s[s.len() - 3], e1) && eq_ci(
        s[s.len() - 2],
        e2,
    ) && eq_ci(s[s.len() - 1], e3)
}

/// `s` with a trailing `.mp4` or `.mkv` removed, when one is there.
pub open spec fn strip_video_ext(s: Seq<char>) -> Seq<char> {
    if ends_with_ext(s, 'm', 'p', '4') {
        s.take(s.len() - 4)
    } else if ends_with_ext(s, 'm', 'k', 'v') {
        s.take(s.len() - 4)
    } else {
        s
    }
}

fn eq_ci_x(a: char, lower: char) -> (r: bool)
    ensures
        r == eq_ci(a, lower),
{
    a == lower || (97 <= lower as u32 && lower as u32 <= 122 && a as u32 + 32 == lower as u32)
}

/// Removes a known video extension suffix from a name, comparing
/// case-insensitively; a name without one is returned unchanged.
pub fn remove_video_ext_from(name: &str) -> (r: String)
    ensures
        r@ == strip_video_ext(name@),
{
    let v = str_chars(name);
    let n = v.len();
    if n >= 4 && v[n - 4] == '.' {
        let mp4 = eq_ci_x(v[n - 3], 'm') && eq_ci_x(v[n - 2], 'p') && eq_ci_x(v[n - 1], '4');
        let mkv = eq_ci_x(v[n - 3], 'm') && eq_ci_x(v[n - 2], 'k') && eq_ci_x(v[n - 1], 'v');
        if mp4 || mkv {
            let head = crate::text::subrange_vec(&v, 0, n - 4);
            proof {
                assert(v@.subrange(0, n as int - 4) =~= v@.take(n as int - 4));
            }
            return string_of(&head);
        }
    }
    string_of(&v)
}

// ---------------------------------------------------------------------------
// Record operations
// ---------------------------------------------------------------------------

/// A record with its season replaced; a special release is unchanged.
pub open spec fn with_season_spec(e: EpisodeView, s: u8) -> EpisodeView {
    match e {
        EpisodeView::Ep(ep) => EpisodeView::Ep(EpView { season: s, ..ep }),
        EpisodeView::Sp(n) => EpisodeView::Sp(n),
    }
}

/// Replacing the season twice with the same value is the same as doing
/// it once.
pub proof fn lemma_with_season_idempotent(e: EpisodeView, s: u8)
    ensures
        with_season_spec(with_season_spec(e, s), s) == with_season_spec(e, s),
{
    match e {
        EpisodeView::Ep(ep) => {
        },
        EpisodeView::Sp(n) => {
        },
    }
}

/// A record with the episode shifted by `delta`; a special release is
/// unchanged.
pub open spec fn revise_ep_spec(e: EpisodeView, delta: i8) -> EpisodeView {
    match e {
        EpisodeView::Ep(ep) => EpisodeView::Ep(
            EpView { episode: (ep.episode + delta) as u32, ..ep },
        ),
        EpisodeView::Sp(n) => EpisodeView::Sp(n),
    }
}

impl Episode {
    /// The regular record inside; only for values known to be regular.
    pub fn unwrap_ep(self) -> (r: Ep)
        requires
            self is Ep,
        ensures
            self@ == EpisodeView::Ep(r@),
    {
        match self {
            Episode::Ep(ep) => ep,
            Episode::Sp { name } => {
                proof {
                    assert(false);
                }
                Ep {
                    sub_group: name,
                    season: 0,
                    name_en: None,
                    name_zh: None,
                    name_jp: None,
                    episode: 0,
                    sub: None,
                    resolution: None,
                    source: None,
                }
            },
        }
    }

    /// The display name: the override when given, else the first
    /// available name (Chinese, then Japanese, then English), else the
    /// raw title of a special release.
    pub fn name(&self, name_specific: Option<&str>) -> (r: Result<String, ParseError>)
        ensures
            match r {
                Ok(s) => display_name(self@, opt_sref_view(name_specific)) == Ok::<
                    Seq<char>,
                    ParseError,
                >(s@),
                Err(e) => display_name(self@, opt_sref_view(name_specific)) == Err::<
                    Seq<char>,
                    ParseError,
                >(e),
            },
    {
        if let Some(n) = name_specific {
            return Ok(n.to_owned());
        }
        match self {
            Episode::Sp { name } => Ok(name.clone()),
            Episode::Ep(ep) => {
                if let Some(zh) = &ep.name_zh {
                    Ok(zh.clone())
                } else if let Some(jp) = &ep.name_jp {
                    Ok(jp.clone())
                } else if let Some(en) = &ep.name_en {
                    Ok(en.clone())
                } else {
                    Err(ParseError::NoNameAvailable)
                }
            },
        }
    }

    /// The library directory of this record under a show name: a special
    /// release files under season 0.
    pub fn link_path(&self, name: &str) -> (r: String)
        ensures
            r@ == match self@ {
                EpisodeView::Ep(ep) => season_path(name@, ep.season),
                EpisodeView::Sp(_) => season_path(name@, 0),
            },
    {
        match self {
            Episode::Ep(ep) => link_path(name, &ep.season),
            Episode::Sp { .. } => link_path(name, &0),
        }
    }

    /// The library file stem of this record: a special release keeps its
    /// raw title, with a video extension stripped.
    pub fn link_file_name(&self, name: &str) -> (r: String)
        ensures
            r@ == match self@ {
                EpisodeView::Ep(ep) => stem_spec(name@, ep.season, ep.episode),
                EpisodeView::Sp(raw) => strip_video_ext(raw),
            },
    {
        match self {
            Episode::Ep(ep) => link_file_name(name, &ep.season, &ep.episode),
            Episode::Sp { name: raw } => remove_video_ext_from(raw.as_str()),
        }
    }

    /// The library file stem, with the season overridden by the caller.
    pub fn link_file_name_with_season(&self, name: &str, season: &u8) -> (r: String)
        ensures
            r@ == match self@ {
                EpisodeView::Ep(ep) => stem_spec(name@, *season, ep.episode),
                EpisodeView::Sp(raw) => strip_video_ext(raw),
            },
    {
        match self {
            Episode::Ep(ep) => link_file_name(name, season, &ep.episode),
            Episode::Sp { name: raw } => remove_video_ext_from(raw.as_str()),
        }
    }

    /// A new record with the season replaced; a special release is
    /// returned unchanged.
    pub fn with_season(self, season: u8) -> (r: Episode)
        ensures
            r@ == with_season_spec(self@, season),
    {
        match self {
            Episode::Ep(ep) => Episode::Ep(Ep { season, ..ep }),
            sp => sp,
        }
    }

    /// A new record with the episode shifted by the given offset; a
    /// special release is returned unchanged.  The caller keeps the
    /// result in range.
    pub fn revise_ep(self, delta: i8) -> (r: Episode)
        requires
            self@ matches EpisodeView::Ep(ep) ==> 0 <= ep.episode + delta <= u32::MAX,
        ensures
            r@ == revise_ep_spec(self@, delta),
    {
        match self {
            Episode::Ep(ep) => {
                let shifted: i64 = ep.episode as i64 + delta as i64;
                let episode: u32 = shifted as u32;
                Episode::Ep(Ep { episode, ..ep })
            },
            sp => sp,
        }
    }
}

} // verus!
