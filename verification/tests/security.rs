use yood::security::{is_supported_navigation, sanitize_filename, validate_youtube_url};
use yood::urls::UrlParts;

fn parts(host: &str) -> UrlParts {
    UrlParts {
        scheme: "https".into(),
        host: Some(host.into()),
        path: "/".into(),
        query: None,
        serialized: format!("https://{host}/"),
    }
}

#[test]
fn sanitizes_windows_names_and_traversal() {
    assert_eq!(sanitize_filename("../CON: demo?.mp4", "fallback", 100), ".._CON_ demo_.mp4");
    assert_eq!(sanitize_filename("...", "fallback", 100), "fallback");
    assert!(validate_youtube_url("https://www.youtube.com/watch?v=abc").is_ok());
    assert!(validate_youtube_url("https://example.test/watch?v=abc").is_err());
    assert!(validate_youtube_url("javascript:alert(1)").is_err());
}

#[test]
fn sanitized_names_fit_their_budget() {
    assert_eq!(sanitize_filename("con", "f", 100), "_con");
    assert_eq!(sanitize_filename("ééé", "f", 5), "éé");
    assert_eq!(sanitize_filename("ab. .", "f", 100), "ab");
    assert_eq!(sanitize_filename("abc d", "f", 4), "abc");
}

#[test]
fn youtube_urls_are_checked() {
    let u = validate_youtube_url("https://WWW.YouTube.com/watch?v=abc").unwrap();
    assert_eq!(u.serialized, "https://www.youtube.com/watch?v=abc");
    assert_eq!(
        validate_youtube_url("http://www.youtube.com/watch?v=abc").unwrap_err().to_string(),
        "unsupported URL: only HTTPS YouTube URLs are supported"
    );
    assert_eq!(
        validate_youtube_url("https://youtu.be/").unwrap_err().to_string(),
        "invalid input: short YouTube URL has no video id"
    );
    assert!(validate_youtube_url("https://evilyoutube.com/x").is_err());
    assert!(validate_youtube_url("https://music.youtube.com/x").is_ok());
}

#[test]
fn navigation_is_limited_to_google_hosts() {
    assert!(is_supported_navigation(&parts("accounts.google.com")));
    assert!(is_supported_navigation(&parts("I.YTIMG.com")));
    assert!(!is_supported_navigation(&parts("example.test")));
}
