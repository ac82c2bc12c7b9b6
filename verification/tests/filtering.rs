use yood::filtering::{
    aggregate_lists, compile_rules, conditional_etag, count_rules, finish_selectors,
    has_usable_rule, is_safe_selector, is_update_due, is_usable_rule, plan_update,
    settle_fetch, source_cache_path, update_sources, FetchResponse, FilterManager,
    SourceFetch, UpdatePlan,
};
use yood::models::{Settings, Timestamp};

// The built-in filter list is not part of this tree; this line stands in for it.
const STAND_IN_RULES: &str = "||doubleclick.net^\n";

#[test]
fn uses_brave_engine_network_syntax_and_exceptions() {
    let filter = FilterManager::new("/tmp/yood-filter-test", STAND_IN_RULES, "");
    assert!(filter.matches_blocked("https://doubleclick.net/ad.js", false));
    let compiled = compile_rules("||ads.example.test^$script\n@@ads.example.test/allowed.js", "");
    assert!(compiled
        .engine
        .check_network_request(
            &adblock::request::Request::new(
                "https://ads.example.test/ad.js",
                "https://www.youtube.com/watch?v=test",
                "script",
                "GET"
            )
            .expect("request")
        )
        .should_block());
    assert!(!compiled
        .engine
        .check_network_request(
            &adblock::request::Request::new(
                "https://ads.example.test/allowed.js",
                "https://www.youtube.com/watch?v=test",
                "script",
                "GET"
            )
            .expect("request")
        )
        .should_block());
}

#[test]
fn the_media_cdn_is_never_blocked() {
    let filter = FilterManager::new("/c", "||googlevideo.com^\n||example.test^\n", "");
    assert!(!filter.check_network_request(
        "https://rr1---sn-abc.googlevideo.com/videoplayback",
        "https://www.youtube.com/",
        "media"
    ));
    assert!(filter.check_network_request("https://example.test/x", "https://www.youtube.com/", "script"));
    let long = format!("https://example.test/{}", "a".repeat(17000));
    assert!(!filter.check_network_request(&long, "https://www.youtube.com/", "script"));
}

#[test]
fn manager_paths_and_status() {
    let filter = FilterManager::new("/cache/filters", STAND_IN_RULES, "! c\n||a.test^\n");
    assert_eq!(filter.cache_path, "/cache/filters/filters.cache");
    assert_eq!(filter.source_cache_dir, "/cache/filters/sources");
    let status = filter.status(&Settings::default());
    assert!(status.enabled);
    assert_eq!(status.rule_count, 2);
    assert_eq!(status.cache_path.as_deref(), Some("/cache/filters/filters.cache"));
}

#[test]
fn cosmetic_rules_are_sorted_safe_and_unique() {
    let filter = FilterManager::new("/c", "youtube.com##.ytp-ad-module\nyoutube.com##.promoted-sparkles\n##.ad-banner\n", "");
    let rules = filter.script_rules(
        "https://www.youtube.com/watch?v=test",
        &vec!["ad-banner".to_string()],
        &vec![],
    );
    assert!(rules.blocked_hosts.is_empty());
    assert!(rules.cosmetic_selectors.iter().any(|s| s.contains("ytp-ad")));
    assert!(rules.cosmetic_selectors.iter().any(|s| s.contains("promoted")));
    let mut sorted = rules.cosmetic_selectors.clone();
    sorted.sort();
    sorted.dedup();
    assert_eq!(sorted, rules.cosmetic_selectors);
    let finished = finish_selectors(&vec!["b".into(), "a{".into(), "a".into(), "b".into(), "".into()]);
    assert_eq!(finished, vec!["a", "b"]);
}

#[test]
fn rule_lines_are_told_apart() {
    assert!(is_usable_rule("  ||x^ "));
    assert!(!is_usable_rule("! comment"));
    assert!(!is_usable_rule("[Adblock]"));
    assert!(!is_usable_rule("   "));
    assert!(has_usable_rule("! a\n\n##.x"));
    assert!(!has_usable_rule("! a\n[b]\n"));
    assert_eq!(count_rules("a\n!b\n", "c\n\n"), 2);
    assert!(is_safe_selector(".a > b"));
    assert!(!is_safe_selector("a;b"));
    assert!(!is_safe_selector(&"a".repeat(2049)));
}

#[test]
fn refreshes_fetch_https_sources_and_respect_limits() {
    let sources = update_sources(&vec![
        "https://a.test/l.txt".into(),
        "http://b.test/l.txt".into(),
        format!("https://c.test/{}", "x".repeat(3000)),
    ]);
    assert_eq!(sources, vec!["https://a.test/l.txt"]);
    assert_eq!(aggregate_lists(&vec!["a".into(), "b".into()]).as_deref(), Some("a\nb\n"));
    let big = "x".repeat(20 * 1024 * 1024);
    assert_eq!(aggregate_lists(&vec![big.clone(), big]), None);
    let day_ns: i64 = 86_400;
    let last = Timestamp { secs: 100, nanos: 0 };
    assert!(!is_update_due(false, Some(last), Timestamp { secs: 100 + day_ns, nanos: 0 }));
    assert!(is_update_due(false, Some(last), Timestamp { secs: 100 + day_ns, nanos: 1 }));
    assert!(is_update_due(false, None, last));
    assert!(is_update_due(true, Some(last), last));
    assert_eq!(conditional_etag(false, Some("e".into())), None);
    assert_eq!(conditional_etag(true, Some("e".into())).as_deref(), Some("e"));
}

#[test]
fn fetch_results_fall_back_to_the_cache() {
    let fresh = settle_fetch(
        "https://a.test/l",
        FetchResponse::Fresh { byte_count: 5, text: Some("||x^\n".into()), etag: Some("t".into()) },
        Some("old".into()),
    );
    assert!(fresh.store);
    assert_eq!(fresh.body.as_deref(), Some("||x^\n"));
    assert_eq!(fresh.etag, Some(("https://a.test/l".to_string(), "t".to_string())));
    let useless = settle_fetch(
        "https://a.test/l",
        FetchResponse::Fresh { byte_count: 4, text: Some("! c\n".into()), etag: None },
        Some("old".into()),
    );
    assert!(!useless.store);
    assert_eq!(useless.body.as_deref(), Some("old"));
    let same = settle_fetch("s", FetchResponse::NotModified, None);
    assert_eq!(same.body, None);
    let plan = plan_update(
        vec![
            SourceFetch { body: Some("a".into()), etag: Some(("s".into(), "1".into())), store: true },
            SourceFetch { body: None, etag: None, store: false },
            SourceFetch { body: Some("b".into()), etag: None, store: false },
        ],
        "a\nb\n",
    );
    match plan {
        UpdatePlan::Apply { combined, changed, etags } => {
            assert_eq!(combined, "a\nb\n");
            assert!(!changed);
            assert_eq!(etags, vec![("s".to_string(), "1".to_string())]);
        }
        UpdatePlan::Keep => panic!("expected an update"),
    }
    assert!(matches!(plan_update(vec![], ""), UpdatePlan::Keep));
}

#[test]
fn source_copies_are_named_by_url_hash() {
    let mut hasher = std::collections::hash_map::DefaultHasher::new();
    std::hash::Hash::hash("https://a.test/l", &mut hasher);
    let expected = format!("/cache/sources/{:016x}.txt", std::hash::Hasher::finish(&hasher));
    assert_eq!(source_cache_path("/cache/sources", "https://a.test/l"), expected);
}

#[test]
fn page_rules_and_class_rules_are_both_handed_out() {
    let filter = FilterManager::new("/c", "youtube.com##.ytp-ad-module\nyoutube.com##.promoted-sparkles\n##.ad-banner\n", "");
    let rules = filter.script_rules(
        "https://www.youtube.com/watch?v=test",
        &vec!["ad-banner".to_string(), "other".to_string()],
        &vec![],
    );
    assert_eq!(rules.cosmetic_selectors, vec![".ad-banner", ".promoted-sparkles", ".ytp-ad-module"]);
    let without_classes = filter.script_rules("https://www.youtube.com/watch?v=test", &vec![], &vec![]);
    assert_eq!(without_classes.cosmetic_selectors, vec![".promoted-sparkles", ".ytp-ad-module"]);
}
