use muuf::config::SeasonFolder;
use muuf::linking::{
    find_hash_index, join_path, name_extension, name_stem, path_file_name, season_folder_lookup,
    select_video_file, should_add_torrent, subtitle_lang, with_extension, VideoSelection,
};

#[test]
fn path_components_are_read_from_the_characters() {
    assert_eq!(path_file_name("dir/sub/file.mkv"), "file.mkv");
    assert_eq!(path_file_name("file.mkv"), "file.mkv");
    assert_eq!(name_extension("file.mkv"), Some("mkv".to_string()));
    assert_eq!(name_extension("noext"), None);
    assert_eq!(name_extension(".hidden"), None);
    assert_eq!(name_stem("file.mkv"), "file");
    assert_eq!(name_stem("noext"), "noext");
}

#[test]
fn single_video_file_is_selected() {
    let paths = vec![
        "show/readme.txt".to_string(),
        "show/ep1.mkv".to_string(),
        "show/cover.jpg".to_string(),
    ];
    assert_eq!(select_video_file(&paths), VideoSelection::One(1));
}

#[test]
fn torrents_without_or_with_many_videos_are_refused() {
    let none = vec!["a.txt".to_string()];
    assert_eq!(select_video_file(&none), VideoSelection::NoVideo);
    let many = vec!["a.mkv".to_string(), "b.mp4".to_string()];
    assert_eq!(select_video_file(&many), VideoSelection::Multiple);
}

#[test]
fn hash_lookup_finds_first_match() {
    let hashes = vec!["aa".to_string(), "bb".to_string(), "bb".to_string()];
    assert_eq!(find_hash_index(&hashes, "bb"), Some(1));
    assert_eq!(find_hash_index(&hashes, "cc"), None);
    assert!(should_add_torrent(&hashes, &Vec::new(), "cc"));
    assert!(!should_add_torrent(&hashes, &Vec::new(), "aa"));
    assert!(!should_add_torrent(&Vec::new(), &hashes, "bb"));
}

#[test]
fn season_folders_map_to_seasons() {
    let folders = vec![
        SeasonFolder { season: 1, folder: "S1".to_string() },
        SeasonFolder { season: 2, folder: "S2".to_string() },
    ];
    assert_eq!(season_folder_lookup(&folders, "S2"), Some(2));
    assert_eq!(season_folder_lookup(&folders, "extras"), None);
}

#[test]
fn link_paths_are_composed() {
    assert_eq!(join_path("/downloads/link", "Show/Season 01"), "/downloads/link/Show/Season 01");
    assert_eq!(with_extension("Show S01E2", "mkv"), "Show S01E2.mkv");
}

#[test]
fn subtitle_language_from_suffix_code() {
    assert_eq!(subtitle_lang("ep1.SC.srt", "ep1", "srt"), Some("zh".to_string()));
    assert_eq!(subtitle_lang("ep1.tc.ass", "ep1", "ass"), Some("zh-HK".to_string()));
    assert_eq!(subtitle_lang("ep1.zh-hant.ass", "ep1", "ass"), Some("zh-HK".to_string()));
    assert_eq!(subtitle_lang("ep1.ja.srt", "ep1", "srt"), Some("ja".to_string()));
    assert_eq!(subtitle_lang("ep1.fr.srt", "ep1", "srt"), Some("fr".to_string()));
    assert_eq!(subtitle_lang("ep1.srt", "ep1", "srt"), None);
}

#[test]
fn subtitle_language_from_hint_words() {
    assert_eq!(subtitle_lang("其他[简中]字幕.srt", "ep1", "srt"), Some("zh".to_string()));
    assert_eq!(subtitle_lang("其他[繁中]字幕.srt", "ep1", "srt"), Some("zh-HK".to_string()));
    assert_eq!(subtitle_lang("其他[日本語]字幕.srt", "ep1", "srt"), Some("ja".to_string()));
    assert_eq!(subtitle_lang("其他字幕.srt", "ep1", "srt"), None);
}
