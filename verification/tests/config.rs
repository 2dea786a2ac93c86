use muuf::config::{Collection, Config, ConfigError, Downloader, Mikan, ResApi, TransmissionConfig};

fn base_config() -> Config {
    Config {
        rules: Vec::new(),
        mikan: Vec::new(),
        downloader: Downloader::Transmission(TransmissionConfig {
            url: "https://192.168.1.1:8080/transmission/rpc".to_string(),
            user: "admin".to_string(),
            password: "123123".to_string(),
        }),
        res_api: ResApi::Dmhy,
        proxy: None,
        check_interval: 10,
        link: None,
        collections: Vec::new(),
    }
}

fn feed(url: &str, name: &str) -> Mikan {
    Mikan {
        url: url.to_string(),
        name: name.to_string(),
        extra: Vec::new(),
        skip: Vec::new(),
        title_contain: Vec::new(),
        external_subtitle: false,
        ep_revise: 0,
        season: None,
    }
}

#[test]
fn add_mikan_appends_new_feed() {
    let mut config = base_config();
    config.add_mikan(feed("u1", "n1")).unwrap();
    config.add_mikan(feed("u2", "n2")).unwrap();
    assert_eq!(config.mikan.len(), 2);
    assert_eq!(config.mikan[0].name, "n1");
    assert_eq!(config.mikan[1].name, "n2");
}

#[test]
fn add_mikan_replaces_feed_with_same_url() {
    let mut config = base_config();
    config.add_mikan(feed("u1", "n1")).unwrap();
    config.add_mikan(feed("u1", "renamed")).unwrap();
    assert_eq!(config.mikan.len(), 1);
    assert_eq!(config.mikan[0].name, "renamed");
}

#[test]
fn rm_mikan_removes_by_url() {
    let mut config = base_config();
    config.add_mikan(feed("u1", "n1")).unwrap();
    config.add_mikan(feed("u2", "n2")).unwrap();
    config.rm_mikan("u1").unwrap();
    assert_eq!(config.mikan.len(), 1);
    assert_eq!(config.mikan[0].url, "u2");
}

#[test]
fn rm_mikan_of_unknown_url_fails() {
    let mut config = base_config();
    assert_eq!(config.rm_mikan("nope"), Err(ConfigError::MikanNotFound));
}

#[test]
fn collections_are_added_replaced_and_removed_by_torrent_url() {
    let coll = |url: &str, name: &str| Collection {
        torrent_url: url.to_string(),
        name: name.to_string(),
        title: "t".to_string(),
        season_folders: Vec::new(),
        special_mappings: Vec::new(),
        external_subtitle: false,
    };
    let mut config = base_config();
    config.add_collection(coll("c1", "a")).unwrap();
    config.add_collection(coll("c2", "b")).unwrap();
    config.add_collection(coll("c1", "replaced")).unwrap();
    assert_eq!(config.collections.len(), 2);
    assert_eq!(config.collections[0].name, "replaced");
    config.rm_collection("c1").unwrap();
    assert_eq!(config.collections.len(), 1);
    assert_eq!(
        config.rm_collection("c1"),
        Err(ConfigError::CollectionNotFound)
    );
}
