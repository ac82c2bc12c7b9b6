use yood::logging::{
    debug, error, info, parse_level, redact_sensitive, redact_url, set_level, trace, warn,
    LogState,
};
use yood::models::Timestamp;

#[test]
fn parses_log_levels_with_info_default() {
    assert_eq!(parse_level("ERROR"), 1);
    assert_eq!(parse_level("WARN"), 2);
    assert_eq!(parse_level("INFO"), 3);
    assert_eq!(parse_level("DEBUG"), 4);
    assert_eq!(parse_level("TRACE"), 5);
    assert_eq!(parse_level("garbage"), 3);
    assert_eq!(parse_level("debug"), 4);
}

#[test]
fn redacts_sensitive_url_queries_and_headers() {
    let redacted = redact_sensitive(
        "downloading https://www.youtube.com/watch?v=abc&token=SECRET&cp=42 plus https://example.test/x?q=hello",
    );
    assert!(!redacted.contains("SECRET"));
    assert!(redacted.contains("token="));
    assert!(redacted.contains("redacted"));
    assert!(redacted.contains("q=hello"));
    let headers = redact_sensitive("Cookie: SID=leak; header Authorization: Bearer leak2");
    assert!(!headers.contains("leak"));
    assert!(headers.contains("Cookie: [redacted]"));
    assert!(headers.contains("Authorization: [redacted]"));
}

#[test]
fn leaves_plain_messages_unchanged() {
    let message = "download completed in 12s";
    assert_eq!(redact_sensitive(message), message);
}

#[test]
fn url_redaction_keeps_harmless_queries() {
    assert_eq!(redact_url("https://x.test/p?q=1&Token="), "https://x.test/p?q=1&Token=");
    assert_eq!(redact_url("not a url"), "not a url");
    assert_eq!(
        redact_url("https://x.test/p?q=1&ACCESS_TOKEN=abc"),
        "https://x.test/p?q=1&ACCESS_TOKEN=%5Bredacted%5D"
    );
}

#[test]
fn log_lines_respect_the_level() {
    let mut state = LogState::new();
    let now = Timestamp { secs: 0, nanos: 5_000_000 };
    assert_eq!(
        info(&state, "hello token=x", now).as_deref(),
        Some("1970-01-01T00:00:00.005Z INFO hello token=x\n")
    );
    assert_eq!(debug(&state, "hidden", now), None);
    assert!(error(&state, "e", now).unwrap().contains(" ERROR e"));
    assert!(warn(&state, "w", now).unwrap().contains(" WARN w"));
    set_level(&mut state, " trace ");
    assert!(trace(&state, "t", now).unwrap().ends_with(" TRACE t\n"));
    set_level(&mut state, "error");
    assert_eq!(warn(&state, "w", now), None);
}
