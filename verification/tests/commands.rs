use yood::commands::{
    check_filter_page_url, check_filter_request_sync, check_output_dir, check_player_title,
    check_user_path, check_within_roots, concurrency_limit, defaults_appearance, download_output,
    external_link, finish_load, gsettings_appearance, is_safe_dom_token, player_title,
    registry_appearance, safe_dom_tokens, settle_appearance, update_settings,
};
use yood::filtering::FilterManager;
use yood::logging::LogState;
use yood::models::{DownloadRequest, Settings, SettingsPatch, Timestamp};
use yood::queue::DownloadQueue;

#[test]
fn dom_tokens_are_filtered() {
    assert!(is_safe_dom_token("ytp-ad"));
    assert!(!is_safe_dom_token(""));
    assert!(!is_safe_dom_token("a{b"));
    let many: Vec<String> = (0..3000).map(|i| format!("t{i}")).collect();
    let kept = safe_dom_tokens(&many);
    assert_eq!(kept.len(), 2500);
    assert_eq!(kept[0], "t0");
    let mixed = vec!["a".to_string(), "b;".to_string(), "c".to_string()];
    assert_eq!(safe_dom_tokens(&mixed), vec!["a", "c"]);
}

#[test]
fn filter_requests_are_screened_first() {
    let filters = FilterManager::new("/c", "||example.test^\n", "");
    assert!(check_filter_page_url("https://www.youtube.com/").is_ok());
    assert_eq!(
        check_filter_page_url("file:///x").unwrap_err().to_string(),
        "invalid input: invalid filter page URL"
    );
    assert!(check_filter_request_sync(&filters, "https://example.test/a.js", "https://www.youtube.com/", "script"));
    assert!(!check_filter_request_sync(&filters, "ftp://example.test/a.js", "https://www.youtube.com/", "script"));
    assert!(!check_filter_request_sync(&filters, "https://example.test/a.js", "https://www.youtube.com/", &"x".repeat(33)));
}

#[test]
fn player_titles_are_cleaned() {
    assert_eq!(player_title("a\u{7}b"), "ab");
    assert_eq!(player_title(" \n "), "Yood Native Player");
    assert_eq!(player_title(&"é".repeat(600)).chars().count(), 512);
    assert!(check_player_title("ok").is_ok());
    assert!(check_player_title("bad\n").is_err());
}

#[test]
fn only_https_links_open_externally() {
    assert_eq!(external_link("https://example.test/a").unwrap(), "https://example.test/a");
    assert_eq!(
        external_link("http://example.test/").unwrap_err().to_string(),
        "unsupported URL: only HTTPS external links are allowed"
    );
    assert!(external_link("nope").is_err());
}

#[test]
fn user_paths_stay_inside_the_allowed_folders() {
    assert!(check_user_path("/home/u/Videos/a.mp4").is_ok());
    assert!(check_user_path("relative/a.mp4").is_err());
    assert!(check_user_path("/home/u/../etc/passwd").is_err());
    let roots = vec!["/home/u/Videos".to_string(), "/tmp/yood".to_string()];
    assert!(check_within_roots("/p", "/home/u/Videos/x/a.mp4".into(), &roots).is_ok());
    assert!(check_within_roots("/p", "/home/u/Videos2/a.mp4".into(), &roots).is_err());
    assert_eq!(
        check_within_roots("/p", "/etc/x".into(), &roots).unwrap_err().to_string(),
        "path is not allowed: /p is outside the allowed folders"
    );
    assert!(check_output_dir("/d", true, false).is_ok());
    assert!(check_output_dir("/d", true, true).is_err());
}

#[test]
fn downloads_are_found_by_id_for_opening() {
    let mut q = DownloadQueue::new();
    let request = DownloadRequest { url: "https://www.youtube.com/watch?v=abc".into(), ..Default::default() };
    q.enqueue_with(request, "a".into(), Timestamp { secs: 1, nanos: 0 }).unwrap();
    assert_eq!(
        download_output(&q, "a", "download has no output file").unwrap_err().to_string(),
        "resource not found: download has no output file"
    );
    assert_eq!(download_output(&q, "b", "x").unwrap_err().to_string(), "resource not found: b");
}

#[test]
fn desktop_theme_outputs_are_read() {
    assert_eq!(gsettings_appearance("'prefer-dark'\n"), Some("dark"));
    assert_eq!(gsettings_appearance("'Adwaita-Light'"), Some("light"));
    assert_eq!(gsettings_appearance("'default'"), None);
    assert_eq!(registry_appearance("AppsUseLightTheme    REG_DWORD    0x0"), Some("dark"));
    assert_eq!(registry_appearance("REG_DWORD 0x1"), Some("light"));
    assert_eq!(defaults_appearance("Dark"), Some("dark"));
    assert_eq!(settle_appearance(None), "system");
}

#[test]
fn settings_updates_and_loading() {
    let mut settings = Settings::default();
    let mut log = LogState::new();
    let patch = SettingsPatch { log_level: Some("TRACE".into()), ..Default::default() };
    update_settings(&mut settings, &mut log, patch).unwrap();
    assert_eq!(log.level, 5);
    let bad = SettingsPatch { max_concurrent_downloads: Some(9), ..Default::default() };
    assert!(update_settings(&mut settings, &mut log, bad).is_err());
    assert_eq!(settings.max_concurrent_downloads, 9);
    assert_eq!(log.level, 5);
    let mut old = Settings::default();
    old.schema_version = 0;
    old.filter_list_urls = vec![];
    let loaded = finish_load(old).unwrap();
    assert!(!loaded.filter_list_urls.is_empty());
    assert_eq!(concurrency_limit(0), 1);
    assert_eq!(concurrency_limit(3), 3);
    assert_eq!(concurrency_limit(9), 4);
}

#[test]
fn downloads_start_only_below_the_limit() {
    assert!(yood::commands::may_start(0, 1));
    assert!(yood::commands::may_start(1, 2));
    assert!(!yood::commands::may_start(2, 2));
    assert!(!yood::commands::may_start(3, 2));
}
