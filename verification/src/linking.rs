use vstd::prelude::*;

use crate::config::SeasonFolder;
use crate::record::opt_str_view;
use crate::text::{
    chars_eq, contains_str, has_sub, lower_chars, lower_seq, matches_at, matches_at_str,
    remove_sub_from, remove_sub_x, str_chars, str_eq, string_of, subrange_vec,
};

verus! {

// ---------------------------------------------------------------------------
// A plain model of file paths
// ---------------------------------------------------------------------------
//
// Torrent file lists arrive as plain path strings with `/` separators;
// the library reads the final component, its stem, and its extension
// from the characters alone.

/// The index of the last occurrence of `c`, or -1.
pub open spec fn last_index_of(s: Seq<char>, c: char) -> int
    decreases s.len(),
{
    if s.len() == 0 {
        -1
    } else if s.last() == c {
        s.len() - 1
    } else {
        last_index_of(s.drop_last(), c)
    }
}

/// The final component of a path.
pub open spec fn file_name_of(s: Seq<char>) -> Seq<char> {
    s.skip(last_index_of(s, '/') + 1)
}

/// The extension of a file name: what follows the last dot, when the
/// dot is neither absent nor leading.
pub open spec fn ext_of_name(n: Seq<char>) -> Option<Seq<char>> {
    let d = last_index_of(n, '.');
    if d >= 1 {
        Some(n.skip(d + 1))
    } else {
        None
    }
}

/// The stem of a file name: what precedes the last dot, or the whole
/// name.
pub open spec fn stem_of_name(n: Seq<char>) -> Seq<char> {
    let d = last_index_of(n, '.');
    if d >= 1 {
        n.take(d)
    } else {
        n
    }
}

fn last_index_x(v: &Vec<char>, c: char, j: usize) -> (r: Option<usize>)
    requires
        j <= v.len(),
    ensures
        match r {
            Some(ix) => last_index_of(v@.take(j as int), c) == ix && ix < j,
            None => last_index_of(v@.take(j as int), c) == -1,
        },
    decreases j,
{
    if j == 0 {
        proof {
            assert(v@.take(0) =~= Seq::<char>::empty());
        }
        return None;
    }
    proof {
        assert(v@.take(j as int).last() == v@[j as int - 1]);
        assert(v@.take(j as int).drop_last() =~= v@.take(j as int - 1));
    }
    if v[j - 1] == c {
        Some(j - 1)
    } else {
        last_index_x(v, c, j - 1)
    }
}

/// The final component of a path string.
pub fn path_file_name(path: &str) -> (r: String)
    ensures
        r@ == file_name_of(path@),
{
    let v = str_chars(path);
    proof {
        assert(v@.take(v@.len() as int) =~= v@);
    }
    let start = match last_index_x(&v, '/', v.len()) {
        Some(ix) => ix + 1,
        None => 0,
    };
    proof {
        if last_index_of(v@, '/') == -1 {
            assert(v@.skip(0) =~= v@.subrange(0, v@.len() as int));
        }
        assert(v@.skip(start as int) =~= v@.subrange(start as int, v@.len() as int));
    }
    let tail = subrange_vec(&v, start, v.len());
    string_of(&tail)
}

/// The extension of a file name, when it has one.
pub fn name_extension(name: &str) -> (r: Option<String>)
    ensures
        opt_str_view(r) == ext_of_name(name@),
{
    let v = str_chars(name);
    proof {
        assert(v@.take(v@.len() as int) =~= v@);
    }
    match last_index_x(&v, '.', v.len()) {
        Some(d) if d >= 1 => {
            proof {
                assert(v@.skip(d as int + 1) =~= v@.subrange(d as int + 1, v@.len() as int));
            }
            let tail = subrange_vec(&v, d + 1, v.len());
            Some(string_of(&tail))
        },
        _ => None,
    }
}

/// The stem of a file name.
pub fn name_stem(name: &str) -> (r: String)
    ensures
        r@ == stem_of_name(name@),
{
    let v = str_chars(name);
    proof {
        assert(v@.take(v@.len() as int) =~= v@);
    }
    match last_index_x(&v, '.', v.len()) {
        Some(d) if d >= 1 => {
            proof {
                assert(v@.take(d as int) =~= v@.subrange(0, d as int));
            }
            let head = subrange_vec(&v, 0, d);
            string_of(&head)
        },
        _ => string_of(&v),
    }
}

// ---------------------------------------------------------------------------
// Selecting the video file of a torrent
// ---------------------------------------------------------------------------

/// A path names a video file when its extension is exactly `mp4` or
/// `mkv`.
pub open spec fn is_video_path(p: Seq<char>) -> bool {
    ext_of_name(file_name_of(p)) == Some("mp4"@) || ext_of_name(file_name_of(p)) == Some("mkv"@)
}

/// The outcome of looking for the single video file of a torrent.
#[derive(Clone, Copy, Debug, PartialEq, Eq, Structural)]
pub enum VideoSelection {
    /// No file has a video extension.
    NoVideo,
    /// More than one file has a video extension.
    Multiple,
    /// Exactly one file has a video extension; its index is carried.
    One(usize),
}

/// The scan: the first video file is remembered, a second one makes the
/// torrent ineligible.
pub open spec fn select_go(ps: Seq<String>, k: int, found: Option<int>) -> VideoSelection
    decreases ps.len() - k,
{
    if k < 0 || k >= ps.len() {
        match found {
            Option::Some(i) => VideoSelection::One(i as usize),
            Option::None => VideoSelection::NoVideo,
        }
    } else if is_video_path(ps[k]@) {
        if found is Some {
            VideoSelection::Multiple
        } else {
            select_go(ps, k + 1, Some(k))
        }
    } else {
        select_go(ps, k + 1, found)
    }
}

pub open spec fn select_spec(ps: Seq<String>) -> VideoSelection {
    select_go(ps, 0, None)
}

fn is_video_path_x(p: &String) -> (r: bool)
    ensures
        r == is_video_path(p@),
{
    let name = path_file_name(p.as_str());
    match name_extension(name.as_str()) {
        Some(ext) => str_eq(ext.as_str(), "mp4") || str_eq(ext.as_str(), "mkv"),
        None => false,
    }
}

fn select_video_go(ps: &Vec<String>, k: usize, found: Option<usize>) -> (r: VideoSelection)
    requires
        k <= ps.len(),
    ensures
        r == select_go(ps@, k as int, match found {
            Option::Some(i) => Some(i as int),
            Option::None => None,
        }),
    decreases ps.len() - k,
{
    if k >= ps.len() {
        return match found {
            Some(i) => VideoSelection::One(i),
            None => VideoSelection::NoVideo,
        };
    }
    if is_video_path_x(&ps[k]) {
        if found.is_some() {
            VideoSelection::Multiple
        } else {
            select_video_go(ps, k + 1, Some(k))
        }
    } else {
        select_video_go(ps, k + 1, found)
    }
}

/// Finds the single video file among a torrent's paths: a torrent with
/// none or with several is not linked.
pub fn select_video_file(paths: &Vec<String>) -> (r: VideoSelection)
    ensures
        r == select_spec(paths@),
        r matches VideoSelection::One(i) ==> i < paths.len() && is_video_path(paths@[i as int]@),
{
    let n = paths.len();
    let r = select_video_go(paths, 0, None);
    proof {
        assert(paths@.len() == n);
        lemma_select_one(paths@, 0, None);
    }
    r
}

proof fn lemma_select_one(ps: Seq<String>, k: int, found: Option<int>)
    requires
        0 <= k <= ps.len(),
        ps.len() <= usize::MAX,
        found matches Some(i) ==> 0 <= i < ps.len() && is_video_path(ps[i]@),
    ensures
        select_go(ps, k, found) matches VideoSelection::One(i) ==> i < ps.len() && is_video_path(
            ps[i as int]@,
        ),
    decreases ps.len() - k,
{
    if k < ps.len() {
        if is_video_path(ps[k]@) {
            if found is None {
                lemma_select_one(ps, k + 1, Some(k));
            }
        } else {
            lemma_select_one(ps, k + 1, found);
        }
    }
}

// ---------------------------------------------------------------------------
// Duplicate-submission checks
// ---------------------------------------------------------------------------

/// The first index whose entry equals the hash, or -1.
pub open spec fn hash_index(hs: Seq<String>, h: Seq<char>) -> int
    decreases hs.len(),
{
    if hs.len() == 0 {
        -1
    } else if hs[0]@ == h {
        0
    } else {
        let r = hash_index(hs.drop_first(), h);
        if r == -1 {
            -1
        } else {
            r + 1
        }
    }
}

fn find_hash_go(hashes: &Vec<String>, hash: &str, i: usize) -> (r: Option<usize>)
    requires
        i <= hashes.len(),
        forall|j: int| 0 <= j < i ==> hashes@[j]@ != hash@,
    ensures
        match r {
            Some(ix) => hash_index(hashes@, hash@) == ix && ix < hashes.len(),
            None => hash_index(hashes@, hash@) == -1,
        },
    decreases hashes.len() - i,
{
    if i >= hashes.len() {
        proof {
            lemma_hash_index_none(hashes@, hash@);
        }
        return None;
    }
    if str_eq(hashes[i].as_str(), hash) {
        proof {
            lemma_hash_index_first(hashes@, hash@, i as int);
        }
        Some(i)
    } else {
        find_hash_go(hashes, hash, i + 1)
    }
}

proof fn lemma_hash_index_none(hs: Seq<String>, h: Seq<char>)
    requires
        forall|j: int| 0 <= j < hs.len() ==> hs[j]@ != h,
    ensures
        hash_index(hs, h) == -1,
    decreases hs.len(),
{
    if hs.len() > 0 {
        lemma_hash_index_none(hs.drop_first(), h);
    }
}

proof fn lemma_hash_index_first(hs: Seq<String>, h: Seq<char>, i: int)
    requires
        0 <= i < hs.len(),
        hs[i]@ == h,
        forall|j: int| 0 <= j < i ==> hs[j]@ != h,
    ensures
        hash_index(hs, h) == i,
    decreases i,
{
    if i > 0 {
        lemma_hash_index_first(hs.drop_first(), h, i - 1);
    }
}

/// The position of a hash in a list of hashes, by first match.
pub fn find_hash_index(hashes: &Vec<String>, hash: &str) -> (r: Option<usize>)
    ensures
        match r {
            Some(ix) => hash_index(hashes@, hash@) == ix && ix < hashes.len(),
            None => hash_index(hashes@, hash@) == -1,
        },
{
    find_hash_go(hashes, hash, 0)
}

/// A torrent is submitted only when its hash is neither on the download
/// server nor among the hashes added in this run.
pub fn should_add_torrent(server_hashes: &Vec<String>, added: &Vec<String>, hash: &str) -> (r:
    bool)
    ensures
        r == (hash_index(server_hashes@, hash@) == -1 && hash_index(added@, hash@) == -1),
{
    find_hash_go(server_hashes, hash, 0).is_none() && find_hash_go(added, hash, 0).is_none()
}

// ---------------------------------------------------------------------------
// Season folders
// ---------------------------------------------------------------------------

/// The season of the first folder entry that names the given folder.
pub open spec fn folder_season(fs: Seq<SeasonFolder>, folder: Seq<char>) -> Option<u8>
    decreases fs.len(),
{
    if fs.len() == 0 {
        None
    } else if fs[0].folder@ == folder {
        Some(fs[0].season)
    } else {
        folder_season(fs.drop_first(), folder)
    }
}

/// Looks up which season a collection folder belongs to.
pub fn season_folder_lookup(folders: &Vec<SeasonFolder>, parent: &str) -> (r: Option<u8>)
    ensures
        r == folder_season(folders@, parent@),
{
    proof {
        assert(folders@.skip(0) =~= folders@);
    }
    season_folder_go(folders, parent, 0)
}

fn season_folder_go(folders: &Vec<SeasonFolder>, parent: &str, k: usize) -> (r: Option<u8>)
    requires
        k <= folders.len(),
    ensures
        r == folder_season(folders@.skip(k as int), parent@),
    decreases folders.len() - k,
{
    if k >= folders.len() {
        return None;
    }
    proof {
        assert(folders@.skip(k as int)[0] == folders@[k as int]);
        assert(folders@.skip(k as int).drop_first() =~= folders@.skip(k as int + 1));
    }
    if str_eq(folders[k].folder.as_str(), parent) {
        Some(folders[k].season)
    } else {
        season_folder_go(folders, parent, k + 1)
    }
}

// ---------------------------------------------------------------------------
// Composing link paths
// ---------------------------------------------------------------------------

/// Joins a directory and a relative path with a `/`.
pub fn join_path(a: &str, b: &str) -> (r: String)
    ensures
        r@ == a@ + "/"@ + b@,
{
    let mut out = str_chars(a);
    crate::text::push_str_chars(&mut out, "/");
    crate::text::push_str_chars(&mut out, b);
    string_of(&out)
}

/// Appends a dot and an extension to a file stem.
pub fn with_extension(stem: &str, ext: &str) -> (r: String)
    ensures
        r@ == stem@ + "."@ + ext@,
{
    let mut out = str_chars(stem);
    crate::text::push_str_chars(&mut out, ".");
    crate::text::push_str_chars(&mut out, ext);
    string_of(&out)
}

// ---------------------------------------------------------------------------
// External subtitle language inference
// ---------------------------------------------------------------------------

/// The first index carrying a `.` or `_`, or -1.
pub open spec fn first_sep(s: Seq<char>, i: int) -> int
    decreases s.len() - i,
{
    if i < 0 || i >= s.len() {
        -1
    } else if s[i] == '.' || s[i] == '_' {
        i
    } else {
        first_sep(s, i + 1)
    }
}

/// The output language code for a raw code read from a subtitle file
/// name.
pub open spec fn lang_code_map(code: Seq<char>) -> Seq<char> {
    if code == "tc"@ || code == "zh-hant"@ {
        "zh-HK"@
    } else if code == "sc"@ || code == "zh-hans"@ || code.len() == 0 {
        "zh"@
    } else if code == "ja"@ {
        "ja"@
    } else {
        code
    }
}

/// The language of an external subtitle file.  A file named after the
/// episode's stem carries its code between a separator and the
/// extension; any other file is searched for CJK language hint words.
pub open spec fn subtitle_lang_spec(fname: Seq<char>, stem: Seq<char>, suffix: Seq<char>) -> Option<
    Seq<char>,
> {
    if matches_at(fname, 0, stem) {
        let block = lower_seq(
            remove_sub_from(remove_sub_from(fname, stem, 0), "."@ + suffix, 0),
        );
        let j = first_sep(block, 0);
        if j == -1 {
            None
        } else {
            Some(lang_code_map(block.skip(j + 1)))
        }
    } else {
        if has_sub(fname, "简中"@) || has_sub(fname, "簡中"@) {
            Some("zh"@)
        } else if has_sub(fname, "繁中"@) {
            Some("zh-HK"@)
        } else if has_sub(fname, "日文"@) || has_sub(fname, "日语"@) || has_sub(fname, "日語"@)
            || has_sub(fname, "日本语"@) || has_sub(fname, "日本語"@) {
            Some("ja"@)
        } else {
            None
        }
    }
}

fn first_sep_x(v: &Vec<char>, i: usize) -> (r: Option<usize>)
    requires
        i <= v.len(),
    ensures
        match r {
            Some(ix) => first_sep(v@, i as int) == ix && i <= ix < v.len(),
            None => first_sep(v@, i as int) == -1,
        },
    decreases v.len() - i,
{
    if i >= v.len() {
        return None;
    }
    if v[i] == '.' || v[i] == '_' {
        Some(i)
    } else {
        first_sep_x(v, i + 1)
    }
}

/// Infers the language of an external subtitle file from its name.
pub fn subtitle_lang(file_name: &str, file_stem: &str, file_suffix: &str) -> (r: Option<String>)
    ensures
        opt_str_view(r) == subtitle_lang_spec(file_name@, file_stem@, file_suffix@),
{
    let fv = str_chars(file_name);
    if matches_at_str(&fv, 0, file_stem) {
        let sv = str_chars(file_stem);
        let without_stem = remove_sub_x(&fv, &sv, 0);
        let mut dotsuf = str_chars(".");
        crate::text::push_str_chars(&mut dotsuf, file_suffix);
        let without_suffix = remove_sub_x(&without_stem, &dotsuf, 0);
        let block = lower_chars(&without_suffix);
        match first_sep_x(&block, 0) {
            None => None,
            Some(j) => {
                proof {
                    assert(block@.skip(j as int + 1) =~= block@.subrange(
                        j as int + 1,
                        block@.len() as int,
                    ));
                }
                let code = subrange_vec(&block, j + 1, block.len());
                let out: String = if chars_eq(&code, &str_chars("tc")) || chars_eq(
                    &code,
                    &str_chars("zh-hant"),
                ) {
                    "zh-HK".to_owned()
                } else if chars_eq(&code, &str_chars("sc")) || chars_eq(&code, &str_chars("zh-hans"))
                    || code.len() == 0 {
                    "zh".to_owned()
                } else if chars_eq(&code, &str_chars("ja")) {
                    "ja".to_owned()
                } else {
                    string_of(&code)
                };
                Some(out)
            },
        }
    } else {
        if contains_str(&fv, "简中") || contains_str(&fv, "簡中") {
            Some("zh".to_owned())
        } else if contains_str(&fv, "繁中") {
            Some("zh-HK".to_owned())
        } else if contains_str(&fv, "日文") || contains_str(&fv, "日语") || contains_str(
            &fv,
            "日語",
        ) || contains_str(&fv, "日本语") || contains_str(&fv, "日本語") {
            Some("ja".to_owned())
        } else {
            None
        }
    }
}

} // verus!
