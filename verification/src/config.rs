use vstd::prelude::*;

verus! {

// ---------------------------------------------------------------------------
// Configuration data
// ---------------------------------------------------------------------------
//
// The configuration as the library reasons about it.  Loading and saving
// the configuration file, and compiling the special-mapping patterns,
// happen outside the library; here the configuration is plain data, and
// the edits on it are verified.

/// The resource search APIs a rule can query.
#[derive(Clone, Copy, Debug, PartialEq, Eq, Hash, Structural)]
pub enum ResApi {
    Dmhy,
}

/// An HTTP proxy.
#[derive(Debug, PartialEq, Eq)]
pub struct Proxy {
    pub scheme: String,
    pub username: Option<String>,
    pub password: Option<String>,
}

/// The download client to add torrents to.
#[derive(Debug, PartialEq, Eq)]
pub enum Downloader {
    Transmission(TransmissionConfig),
}

/// Connection settings of a Transmission RPC endpoint.
#[derive(Debug, PartialEq, Eq)]
pub struct TransmissionConfig {
    pub url: String,
    pub user: String,
    pub password: String,
}

/// A search rule: keywords and filters against a resource API.  The
/// publish cutoff is kept as seconds since the Unix epoch.
#[derive(Debug, PartialEq, Eq)]
pub struct Rule {
    pub name: String,
    pub keywords: Vec<String>,
    pub res_api: ResApi,
    pub sub_group_id: Option<i32>,
    pub sub_group_name: Option<String>,
    pub res_type_id: Option<i32>,
    pub res_type_name: Option<String>,
    pub publish_after: Option<i64>,
}

/// One RSS feed to watch, with its per-feed overrides.
#[derive(Debug, PartialEq, Eq)]
pub struct Mikan {
    pub url: String,
    pub name: String,
    pub extra: Vec<MikanItem>,
    pub skip: Vec<MikanItem>,
    pub title_contain: Vec<String>,
    pub external_subtitle: bool,
    pub ep_revise: i8,
    pub season: Option<u8>,
}

/// A single feed entry, as a title and a torrent URL.
#[derive(Debug, PartialEq, Eq)]
pub struct MikanItem {
    pub title: String,
    pub url: String,
}

/// A season-organized collection torrent to mirror into the library.
#[derive(Debug, PartialEq)]
pub struct Collection {
    pub torrent_url: String,
    pub name: String,
    pub title: String,
    pub season_folders: Vec<SeasonFolder>,
    pub special_mappings: Vec<SpecialMapping>,
    pub external_subtitle: bool,
}

/// Maps a folder inside a collection torrent to a season number.
#[derive(Debug, PartialEq, Eq)]
pub struct SeasonFolder {
    pub season: u8,
    pub folder: String,
}

/// Renames one special file of a collection.  When `match_and_replace`
/// is set, `file_name` is a pattern the caller compiles and applies.
#[derive(Debug, PartialEq)]
pub struct SpecialMapping {
    pub file_name: String,
    pub name: String,
    pub match_and_replace: bool,
}

/// How to link completed downloads into the media library.
#[derive(Debug, PartialEq, Eq)]
pub struct Link {
    pub enable: bool,
    pub path: String,
    pub dry_run: bool,
    pub notify: Option<LinkNotify>,
}

/// Where to announce a fresh link.
#[derive(Debug, PartialEq, Eq)]
pub enum LinkNotify {
    Ntfy { channel: String },
}

/// The whole configuration.
#[derive(Debug, PartialEq)]
pub struct Config {
    pub rules: Vec<Rule>,
    pub mikan: Vec<Mikan>,
    pub downloader: Downloader,
    pub res_api: ResApi,
    pub proxy: Option<Proxy>,
    pub check_interval: u64,
    pub link: Option<Link>,
    pub collections: Vec<Collection>,
}

/// The ways a configuration edit can fail.
#[derive(Clone, Copy, Debug, PartialEq, Eq, Structural)]
pub enum ConfigError {
    MikanNotFound,
    CollectionNotFound,
}

// ---------------------------------------------------------------------------
// Finding entries by URL
// ---------------------------------------------------------------------------

/// The first index whose feed has the given URL, or -1.
pub open spec fn mikan_url_index(ms: Seq<Mikan>, url: Seq<char>) -> int
    decreases ms.len(),
{
    if ms.len() == 0 {
        -1
    } else if ms[0].url@ == url {
        0
    } else {
        let r = mikan_url_index(ms.drop_first(), url);
        if r == -1 {
            -1
        } else {
            r + 1
        }
    }
}

/// The first index whose collection has the given torrent URL, or -1.
pub open spec fn collection_url_index(cs: Seq<Collection>, url: Seq<char>) -> int
    decreases cs.len(),
{
    if cs.len() == 0 {
        -1
    } else if cs[0].torrent_url@ == url {
        0
    } else {
        let r = collection_url_index(cs.drop_first(), url);
        if r == -1 {
            -1
        } else {
            r + 1
        }
    }
}

fn find_mikan_index(ms: &Vec<Mikan>, url: &str, i: usize) -> (r: Option<usize>)
    requires
        i <= ms.len(),
        forall|j: int| 0 <= j < i ==> ms@[j].url@ != url@,
    ensures
        match r {
            Some(ix) => mikan_url_index(ms@, url@) == ix && ix < ms.len(),
            None => mikan_url_index(ms@, url@) == -1,
        },
    decreases ms.len() - i,
{
    if i >= ms.len() {
        proof {
            lemma_mikan_index_none(ms@, url@);
        }
        return None;
    }
    if crate::text::str_eq(ms[i].url.as_str(), url) {
        proof {
            lemma_mikan_index_first(ms@, url@, i as int);
        }
        Some(i)
    } else {
        find_mikan_index(ms, url, i + 1)
    }
}

proof fn lemma_mikan_index_none(ms: Seq<Mikan>, url: Seq<char>)
    requires
        forall|j: int| 0 <= j < ms.len() ==> ms[j].url@ != url,
    ensures
        mikan_url_index(ms, url) == -1,
    decreases ms.len(),
{
    if ms.len() > 0 {
        lemma_mikan_index_none(ms.drop_first(), url);
    }
}

proof fn lemma_mikan_index_first(ms: Seq<Mikan>, url: Seq<char>, i: int)
    requires
        0 <= i < ms.len(),
        ms[i].url@ == url,
        forall|j: int| 0 <= j < i ==> ms[j].url@ != url,
    ensures
        mikan_url_index(ms, url) == i,
    decreases i,
{
    if i > 0 {
        lemma_mikan_index_first(ms.drop_first(), url, i - 1);
    }
}

fn find_collection_index(cs: &Vec<Collection>, url: &str, i: usize) -> (r: Option<usize>)
    requires
        i <= cs.len(),
        forall|j: int| 0 <= j < i ==> cs@[j].torrent_url@ != url@,
    ensures
        match r {
            Some(ix) => collection_url_index(cs@, url@) == ix && ix < cs.len(),
            None => collection_url_index(cs@, url@) == -1,
        },
    decreases cs.len() - i,
{
    if i >= cs.len() {
        proof {
            lemma_collection_index_none(cs@, url@);
        }
        return None;
    }
    if crate::text::str_eq(cs[i].torrent_url.as_str(), url) {
        proof {
            lemma_collection_index_first(cs@, url@, i as int);
        }
        Some(i)
    } else {
        find_collection_index(cs, url, i + 1)
    }
}

proof fn lemma_collection_index_none(cs: Seq<Collection>, url: Seq<char>)
    requires
        forall|j: int| 0 <= j < cs.len() ==> cs[j].torrent_url@ != url,
    ensures
        collection_url_index(cs, url) == -1,
    decreases cs.len(),
{
    if cs.len() > 0 {
        lemma_collection_index_none(cs.drop_first(), url);
    }
}

proof fn lemma_collection_index_first(cs: Seq<Collection>, url: Seq<char>, i: int)
    requires
        0 <= i < cs.len(),
        cs[i].torrent_url@ == url,
        forall|j: int| 0 <= j < i ==> cs[j].torrent_url@ != url,
    ensures
        collection_url_index(cs, url) == i,
    decreases i,
{
    if i > 0 {
        lemma_collection_index_first(cs.drop_first(), url, i - 1);
    }
}

// ---------------------------------------------------------------------------
// Edits
// ---------------------------------------------------------------------------

impl Config {
    /// Adds a feed, or replaces the feed that already watches the same
    /// URL.
    pub fn add_mikan(&mut self, mikan: Mikan) -> (r: Result<(), ConfigError>)
        ensures
            r is Ok,
            ({
                let ix = mikan_url_index(old(self).mikan@, mikan.url@);
                if ix == -1 {
                    final(self).mikan@ == old(self).mikan@.push(mikan)
                } else {
                    final(self).mikan@ == old(self).mikan@.update(ix, mikan)
                }
            }),
            final(self).rules == old(self).rules,
            final(self).downloader == old(self).downloader,
            final(self).res_api == old(self).res_api,
            final(self).proxy == old(self).proxy,
            final(self).check_interval == old(self).check_interval,
            final(self).link == old(self).link,
            final(self).collections == old(self).collections,
    {
        match find_mikan_index(&self.mikan, mikan.url.as_str(), 0) {
            Some(ix) => {
                self.mikan[ix] = mikan;
                Ok(())
            },
            None => {
                self.mikan.push(mikan);
                Ok(())
            },
        }
    }

    /// Removes the feed that watches the given URL; an unknown URL is
    /// an error and leaves the configuration unchanged.
    pub fn rm_mikan(&mut self, url: &str) -> (r: Result<(), ConfigError>)
        ensures
            ({
                let ix = mikan_url_index(old(self).mikan@, url@);
                if ix == -1 {
                    r == Err::<(), ConfigError>(ConfigError::MikanNotFound) && *final(self)
                        == *old(self)
                } else {
                    r is Ok && final(self).mikan@ == old(self).mikan@.remove(ix)
                }
            }),
            final(self).rules == old(self).rules,
            final(self).downloader == old(self).downloader,
            final(self).res_api == old(self).res_api,
            final(self).proxy == old(self).proxy,
            final(self).check_interval == old(self).check_interval,
            final(self).link == old(self).link,
            final(self).collections == old(self).collections,
    {
        match find_mikan_index(&self.mikan, url, 0) {
            Some(ix) => {
                self.mikan.remove(ix);
                Ok(())
            },
            None => Err(ConfigError::MikanNotFound),
        }
    }

    /// Adds a collection, or replaces the collection that already
    /// mirrors the same torrent URL.
    pub fn add_collection(&mut self, collection: Collection) -> (r: Result<(), ConfigError>)
        ensures
            r is Ok,
            ({
                let ix = collection_url_index(old(self).collections@, collection.torrent_url@);
                if ix == -1 {
                    final(self).collections@ == old(self).collections@.push(collection)
                } else {
                    final(self).collections@ == old(self).collections@.update(ix, collection)
                }
            }),
            final(self).rules == old(self).rules,
            final(self).mikan == old(self).mikan,
            final(self).downloader == old(self).downloader,
            final(self).res_api == old(self).res_api,
            final(self).proxy == old(self).proxy,
            final(self).check_interval == old(self).check_interval,
            final(self).link == old(self).link,
    {
        match find_collection_index(&self.collections, collection.torrent_url.as_str(), 0) {
            Some(ix) => {
                self.collections[ix] = collection;
                Ok(())
            },
            None => {
                self.collections.push(collection);
                Ok(())
            },
        }
    }

    /// Removes the collection that mirrors the given torrent URL; an
    /// unknown URL is an error and leaves the configuration unchanged.
    pub fn rm_collection(&mut self, url: &str) -> (r: Result<(), ConfigError>)
        ensures
            ({
                let ix = collection_url_index(old(self).collections@, url@);
                if ix == -1 {
                    r == Err::<(), ConfigError>(ConfigError::CollectionNotFound)
                        && *final(self) == *old(self)
                } else {
                    r is Ok && final(self).collections@ == old(self).collections@.remove(ix)
                }
            }),
            final(self).rules == old(self).rules,
            final(self).mikan == old(self).mikan,
            final(self).downloader == old(self).downloader,
            final(self).res_api == old(self).res_api,
            final(self).proxy == old(self).proxy,
            final(self).check_interval == old(self).check_interval,
            final(self).link == old(self).link,
    {
        match find_collection_index(&self.collections, url, 0) {
            Some(ix) => {
                self.collections.remove(ix);
                Ok(())
            },
            None => Err(ConfigError::CollectionNotFound),
        }
    }
}

} // verus!
