use muuf::config::Mikan;
use muuf::mikan::process;
use muuf::record::{Ep, Episode};

fn feed_with_revision(ep_revise: i8) -> Mikan {
    Mikan {
        name: String::from(""),
        url: String::from(""),
        extra: Vec::new(),
        skip: Vec::new(),
        title_contain: Vec::new(),
        external_subtitle: false,
        ep_revise,
        season: None,
    }
}

#[test]
fn test_process() {
    let mikan = feed_with_revision(-48);
    let ep = process("[Up to 21°C] 关于我转生变成史莱姆这档事 第三季 / Tensei shitara Slime Datta Ken 3rd Season - 49 (Baha 1920x1080 AVC AAC MP4)", &mikan);
    assert!(matches!(ep, Ok(Episode::Ep(Ep { episode, .. })) if episode == 1))
}

use muuf::config::MikanItem;
use muuf::mikan::{is_batch_release, keep_item};

#[test]
fn skip_entries_filter_by_title_url_or_both() {
    let mut m = feed_with_revision(0);
    m.skip = vec![
        MikanItem { title: "bad title".to_string(), url: "".to_string() },
        MikanItem { title: "".to_string(), url: "bad-url".to_string() },
        MikanItem { title: "both".to_string(), url: "both-url".to_string() },
    ];
    assert!(!keep_item(&m, "bad title", "whatever"));
    assert!(!keep_item(&m, " bad title ", "whatever"));
    assert!(!keep_item(&m, "whatever", "bad-url"));
    assert!(!keep_item(&m, "both", "both-url"));
    assert!(keep_item(&m, "both", "other-url"));
    assert!(keep_item(&m, "fine", "fine-url"));
}

#[test]
fn title_contain_requires_every_substring() {
    let mut m = feed_with_revision(0);
    m.title_contain = vec!["1080".to_string(), "CHT".to_string()];
    assert!(keep_item(&m, "[x] show [1080p][CHT]", "u"));
    assert!(!keep_item(&m, "[x] show [720p][CHT]", "u"));
}

#[test]
fn batch_releases_are_recognized() {
    assert!(is_batch_release("某番剧 1-12 合集"));
    assert!(!is_batch_release("某番剧 - 09"));
}

#[test]
fn out_of_range_revision_leaves_episode_unchanged() {
    let m = feed_with_revision(-128);
    let ep = process("[grp] Show - 09 [1080p]", &m).unwrap().unwrap_ep();
    assert_eq!(ep.episode, 9);
}
