use muuf::dmhy::{prefer_tracker, Dmhy};
use muuf::notify::Notify;

#[test]
fn dmhy_urls_are_formatted() {
    let api = Dmhy { base_uri: "https://share.dmhy.org".to_string() };
    assert_eq!(
        api.advanced_search_url(),
        "https://share.dmhy.org/topics/advanced-search?team_id=0&sort_id=0&orderby="
    );
    let keywords = vec!["约".to_string(), "战".to_string()];
    assert_eq!(
        api.res_list_url(&keywords, Some(604), None),
        "https://share.dmhy.org/topics/list/page/1?keyword=约+战&sort_id=0&team_id=604&order=date-desc"
    );
    assert_eq!(
        api.res_list_url(&Vec::new(), None, Some(2)),
        "https://share.dmhy.org/topics/list/page/1?keyword=&sort_id=2&team_id=0&order=date-desc"
    );
}

#[test]
fn preferred_trackers_are_recognized() {
    assert!(prefer_tracker("https://tr.bangumi.moe%3A6969/announce"));
    assert!(!prefer_tracker("https://other.example/announce"));
}

#[test]
fn notify_request_is_composed() {
    let n = Notify::Ntfy { topic: "mychannel".to_string() };
    let (url, body) = n.link_success_request("Show S01E2");
    assert_eq!(url, "https://ntfy.sh/mychannel");
    assert_eq!(body, "已下载<Show S01E2>");
}
