use yood::process::{binary_status, platform_dir, tool_not_found, version_text, BinaryResolver};
use yood::updates::{
    add_chunk, check_account_hints, check_update_response, keyring_entry_names,
    validate_staged_binary, ytdlp_release_url, MAX_YTDLP_BYTES,
};
use yood::webfilter::{check_extension_bundle, filter_response, filter_subframe, request_type_for};
use yood::filtering::FilterManager;

#[test]
fn tools_are_looked_for_in_bundles_then_on_path() {
    let r = BinaryResolver::new(Some("/res".into()), Some("/data".into()));
    let c = r.candidates("yt-dlp", Some("/usr/bin/yt-dlp".into()));
    let names: Vec<(&str, bool)> = c.iter().map(|(p, b)| (p.as_str(), *b)).collect();
    assert_eq!(
        names,
        vec![
            ("/data/tools/yt-dlp", true),
            ("/data/tools/linux-x86_64/yt-dlp", true),
            ("/res/binaries/yt-dlp", true),
            ("/res/binaries/linux-x86_64/yt-dlp", true),
            ("/usr/bin/yt-dlp", false),
        ]
    );
    assert_eq!(r.writable_path("ffmpeg").unwrap(), "/data/tools/ffmpeg");
    assert!(BinaryResolver::new(None, None).writable_path("x").is_err());
    assert_eq!(platform_dir(), "linux-x86_64");
    assert_eq!(tool_not_found("ffmpeg").to_string(), "resource not found: ffmpeg is not bundled or available on PATH");
    let s = binary_status("ffmpeg", None, Some("v".into()));
    assert!(!s.available && s.version.is_none());
}

#[test]
fn version_output_is_trimmed_and_checked() {
    assert_eq!(version_text("yt-dlp", true, "0", " 2024.01.01\n").unwrap(), "2024.01.01");
    assert_eq!(
        version_text("yt-dlp", false, "exit status: 2", "").unwrap_err().to_string(),
        "external process failed: yt-dlp returned exit status: 2"
    );
    assert!(version_text("yt-dlp", true, "0", "  ").is_err());
    assert_eq!(version_text("x", true, "0", &"v".repeat(200)).unwrap().len(), 128);
}

#[test]
fn updates_stay_within_their_limits() {
    assert!(ytdlp_release_url().starts_with("https://github.com/"));
    assert!(check_update_response(true, "200 OK", Some(10)).is_ok());
    assert!(check_update_response(true, "200 OK", Some(MAX_YTDLP_BYTES + 1)).is_err());
    assert_eq!(
        check_update_response(false, "404 Not Found", None).unwrap_err().to_string(),
        "network error: yt-dlp update returned 404 Not Found"
    );
    assert_eq!(add_chunk(10, 5).unwrap(), 15);
    assert!(add_chunk(MAX_YTDLP_BYTES, 1).is_err());
    assert!(add_chunk(u64::MAX, 1).is_err());
    assert!(validate_staged_binary(true, false).is_ok());
    assert!(validate_staged_binary(true, true).is_err());
    assert_eq!(keyring_entry_names(), ("com.playrood.yood", "account-hints"));
    assert!(check_account_hints("me@example.test").is_ok());
    assert!(check_account_hints("a\u{0}b").is_err());
}

#[test]
fn web_view_requests_are_typed_and_filtered() {
    assert_eq!(request_type_for(&Some("application/javascript".into())), "script");
    assert_eq!(request_type_for(&Some("image/png".into())), "image");
    assert_eq!(request_type_for(&Some("application/json".into())), "xmlhttprequest");
    assert_eq!(request_type_for(&None), "other");
    let filters = FilterManager::new("/c", "||ads.example.test^\n", "");
    let ad = Some("https://ads.example.test/x.js".to_string());
    assert!(filter_response(&filters, false, &ad, &Some("text/javascript".into()), &None));
    assert!(!filter_response(&filters, true, &ad, &None, &None));
    assert!(!filter_response(&filters, false, &Some("about:blank".into()), &None, &None));
    assert!(filter_subframe(&filters, true, &ad, &None));
    assert!(!filter_subframe(&filters, false, &ad, &None));
}

#[test]
fn extension_bundles_are_checked() {
    let manifest = r#"{"declarative_net_request":{"rule_resources":[{"id":"r","path":"rules.json"}]}}"#;
    assert!(check_extension_bundle(manifest, r#"[{"id":1,"condition":{"urlFilter":"ads.test"}}]"#).is_ok());
    assert!(check_extension_bundle(manifest, r#"[{"condition":{"urlFilter":"googlevideo.com"}}]"#).is_err());
    assert!(check_extension_bundle("{}", "[]").is_err());
    assert!(check_extension_bundle("{", "[]").is_err());
}

#[test]
fn user_agent_follows_the_overrides() {
    assert_eq!(yood::webfilter::user_agent_choice(true, Some("x".into())), None);
    assert_eq!(yood::webfilter::user_agent_choice(false, Some("x".into())), Some("x".to_string()));
    assert!(yood::webfilter::user_agent_choice(false, None).unwrap().contains("Chrome/128.0.0.0"));
}
