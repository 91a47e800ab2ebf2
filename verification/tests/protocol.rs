use tauri_manager::error::ManagerError;
use tauri_manager::protocol::{asset_key, asset_response, trim_trailing_slash};
use tauri_manager::text::{before_query, remove_all, starts_with};

#[test]
fn bare_origin_serves_index() {
    assert_eq!(asset_key("tauri://localhost"), "index.html");
    assert_eq!(asset_key("tauri://localhost/"), "index.html");
    assert_eq!(asset_key("tauri://localhost?query=1"), "index.html");
}

#[test]
fn query_and_fragment_are_ignored() {
    assert_eq!(asset_key("tauri://localhost/index.html?x=1#top"), "index.html");
    assert_eq!(asset_key("tauri://localhost/app.js#frag?x"), "app.js");
}

#[test]
fn path_is_percent_decoded() {
    assert_eq!(asset_key("tauri://localhost/assets/my%20file.js/"), "assets/my file.js");
    assert_eq!(asset_key("tauri://localhost/%F0%9F%92%96"), "\u{1F496}");
    assert_eq!(asset_key("tauri://localhost/bad%zz"), "bad%zz");
    assert_eq!(asset_key("tauri://localhost/%FF"), "\u{FFFD}");
}

#[test]
fn origin_is_removed_everywhere() {
    assert_eq!(asset_key("tauri://localhost/tauri://localhost/x"), "/x");
    assert_eq!(remove_all("aXbXc", "X"), "abc");
    assert_eq!(remove_all("aaa", "aa"), "a");
}

#[test]
fn text_helpers() {
    assert_eq!(before_query("a/b?c#d"), "a/b");
    assert_eq!(before_query("a#b?c"), "a");
    assert_eq!(before_query("plain"), "plain");
    assert_eq!(trim_trailing_slash("a/"), "a");
    assert_eq!(trim_trailing_slash("a//"), "a/");
    assert_eq!(trim_trailing_slash(""), "");
    assert!(starts_with("tauri://x", "tauri://"));
    assert!(!starts_with("taur", "tauri://"));
}

#[test]
fn asset_response_reports_missing_assets() {
    assert_eq!(asset_response("a.js".to_string(), Some(vec![1])).ok(), Some(vec![1u8]));
    match asset_response("missing.js".to_string(), None) {
        Err(ManagerError::AssetNotFound(key)) => assert_eq!(key, "missing.js"),
        _ => panic!("expected AssetNotFound"),
    }
}
