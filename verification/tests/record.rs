use muuf::record::{link_path, remove_video_ext_from, Ep, Episode, ParseError};

fn regular() -> Episode {
    Episode::Ep(Ep {
        sub_group: "grp".to_string(),
        season: 3,
        name_en: Some("English".to_string()),
        name_zh: Some("中文名字".to_string()),
        name_jp: Some("カタカナ".to_string()),
        episode: 7,
        sub: None,
        resolution: None,
        source: None,
    })
}

#[test]
fn display_name_prefers_chinese_then_japanese_then_english() {
    let ep = regular();
    assert_eq!(ep.name(None).unwrap(), "中文名字");
    let mut inner = ep.unwrap_ep();
    inner.name_zh = None;
    let ep = Episode::Ep(inner);
    assert_eq!(ep.name(None).unwrap(), "カタカナ");
    let mut inner = ep.unwrap_ep();
    inner.name_jp = None;
    let ep = Episode::Ep(inner);
    assert_eq!(ep.name(None).unwrap(), "English");
}

#[test]
fn display_name_override_wins() {
    let ep = regular();
    assert_eq!(ep.name(Some("Override")).unwrap(), "Override");
}

#[test]
fn display_name_of_special_is_raw_title() {
    let ep = Episode::Sp { name: "raw title".to_string() };
    assert_eq!(ep.name(None).unwrap(), "raw title");
}

#[test]
fn display_name_without_any_name_fails() {
    let ep = Episode::Ep(Ep {
        sub_group: "grp".to_string(),
        season: 1,
        name_en: None,
        name_zh: None,
        name_jp: None,
        episode: 1,
        sub: None,
        resolution: None,
        source: None,
    });
    assert_eq!(ep.name(None).unwrap_err(), ParseError::NoNameAvailable);
}

#[test]
fn with_season_is_idempotent() {
    let once = regular().with_season(9);
    let twice = regular().with_season(9).with_season(9);
    assert_eq!(once, twice);
    assert_eq!(once.unwrap_ep().season, 9);
}

#[test]
fn with_season_leaves_special_alone() {
    let sp = Episode::Sp { name: "x".to_string() };
    assert_eq!(sp.with_season(4), Episode::Sp { name: "x".to_string() });
}

#[test]
fn revise_ep_shifts_episode() {
    let ep = regular().revise_ep(-3).unwrap_ep();
    assert_eq!(ep.episode, 4);
    let ep = regular().revise_ep(5).unwrap_ep();
    assert_eq!(ep.episode, 12);
}

#[test]
fn link_path_pads_season_to_two_digits() {
    assert_eq!(link_path("Show", &3), "Show/Season 03");
    assert_eq!(link_path("Show", &12), "Show/Season 12");
    assert_eq!(link_path("Show", &100), "Show/Season 100");
}

#[test]
fn episode_link_path_uses_season_zero_for_special() {
    let sp = Episode::Sp { name: "x".to_string() };
    assert_eq!(sp.link_path("Show"), "Show/Season 00");
    assert_eq!(regular().link_path("Show"), "Show/Season 03");
}

#[test]
fn link_file_name_formats_stem() {
    assert_eq!(regular().link_file_name("Show"), "Show S03E7");
    assert_eq!(regular().link_file_name_with_season("Show", &1), "Show S01E7");
    let sp = Episode::Sp { name: "movie.mkv".to_string() };
    assert_eq!(sp.link_file_name("Show"), "movie");
}

#[test]
fn video_extension_strip_is_case_insensitive() {
    assert_eq!(remove_video_ext_from("a.MKV"), "a");
    assert_eq!(remove_video_ext_from("a.Mp4"), "a");
    assert_eq!(remove_video_ext_from("a.avi"), "a.avi");
    assert_eq!(remove_video_ext_from("mp4"), "mp4");
}
