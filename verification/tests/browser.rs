use yood::browser::{
    brave_args, brave_candidates, brave_exe_name, chromium_timestamp, extension_candidates,
    launch_url, local_state_entries, missing_brave_message, preferences_entries, profile_dir,
    seed_custom_filters, seed_prefs_file, shields_entries, wanted_filters,
};
use yood::models::Timestamp;

// The built-in filter list is not part of this tree; these lines stand in for it.
const STAND_IN_RULES: &str = "! Title: built-in\n[Adblock Plus 2.0]\n||doubleclick.net^\n\n  youtube.com##ytd-ad-slot-renderer  \n";

#[test]
fn seeds_aggressive_shields_without_overriding() {
    let stamp = chromium_timestamp(Timestamp { secs: 1, nanos: 0 });
    let text = seed_prefs_file(false, &None, shields_entries(&stamp)).expect("preferences seeded");
    let data: serde_json::Value = serde_json::from_str(&text).expect("valid prefs");
    let exceptions = data.pointer("/profile/content_settings/exceptions").expect("exceptions seeded");
    let ads = exceptions
        .pointer("/shieldsAds")
        .and_then(|value| value.as_object())
        .expect("shieldsAds bucket");
    let entry = ads.get("youtube.com,*").expect("youtube pattern");
    assert_eq!(entry.get("setting").and_then(|v| v.as_i64()), Some(2));
    let cosmetic = exceptions
        .pointer("/cosmeticFilteringV2")
        .and_then(|value| value.as_object())
        .expect("cosmetic bucket");
    let centry = cosmetic.get("www.youtube.com,*").expect("www pattern");
    assert_eq!(
        centry.pointer("/setting/cosmeticFilteringV2").and_then(|value| value.as_i64()),
        Some(1)
    );
    let mut current: serde_json::Value = serde_json::from_str(&text).expect("json");
    current["profile"]["content_settings"]["exceptions"]["shieldsAds"]["youtube.com,*"] =
        serde_json::Value::Object({
            let mut m = serde_json::Map::new();
            m.insert("last_modified".into(), serde_json::Value::String("1".into()));
            m.insert("setting".into(), serde_json::Value::from(1));
            m
        });
    let stored = serde_json::to_string(&current).unwrap();
    let again_text = seed_prefs_file(true, &Some(stored.clone()), shields_entries(&stamp))
        .unwrap_or(stored);
    let again: serde_json::Value = serde_json::from_str(&again_text).expect("json");
    assert_eq!(
        again
            .pointer("/profile/content_settings/exceptions/shieldsAds")
            .and_then(|bucket| bucket.as_object())
            .and_then(|bucket| bucket.get("youtube.com,*"))
            .and_then(|entry| entry.get("setting"))
            .and_then(|value| value.as_i64()),
        Some(1),
        "user override must survive re-seeding"
    );
}

#[test]
fn merges_custom_filters_without_duplicates() {
    let wanted = wanted_filters(STAND_IN_RULES);
    let first = seed_custom_filters(false, &None, &wanted).expect("local state");
    let data: serde_json::Value = serde_json::from_str(&first).expect("json");
    let filters = data
        .pointer("/brave/ad_block/custom_filters")
        .and_then(|value| value.as_str())
        .expect("custom filters seeded");
    assert!(filters.contains("||doubleclick.net^"));
    assert!(filters.contains("youtube.com##ytd-ad-slot-renderer"));
    let count = filters.lines().filter(|line| line.trim() == "||doubleclick.net^").count();
    assert_eq!(count, 1);
    let mut current: serde_json::Value = serde_json::from_str(&first).expect("json");
    let slot = current.pointer_mut("/brave/ad_block/custom_filters").expect("slot");
    *slot = serde_json::Value::String(format!("{}||user-example.test^\n", slot.as_str().unwrap_or("")));
    let stored = serde_json::to_string(&current).unwrap();
    let again = seed_custom_filters(true, &Some(stored.clone()), &wanted).unwrap_or(stored);
    let data: serde_json::Value = serde_json::from_str(&again).expect("json");
    let merged = data
        .pointer("/brave/ad_block/custom_filters")
        .and_then(|value| value.as_str())
        .expect("merged");
    assert!(merged.contains("||user-example.test^"), "user filter survives");
    assert_eq!(
        merged.lines().filter(|line| line.trim() == "||doubleclick.net^").count(),
        1,
        "no duplicates after re-seed"
    );
}

#[test]
fn wanted_rules_skip_comments_and_headers() {
    assert_eq!(wanted_filters(STAND_IN_RULES), vec!["||doubleclick.net^", "youtube.com##ytd-ad-slot-renderer"]);
}

#[test]
fn seeding_fills_missing_keys_only() {
    let existing = r#"{"brave":{"p3a":{"enabled":true},"ai_chat":7},"other":1}"#.to_string();
    let out = seed_prefs_file(true, &Some(existing), local_state_entries()).expect("changed");
    let v: serde_json::Value = serde_json::from_str(&out).unwrap();
    assert_eq!(v.pointer("/brave/p3a/enabled"), Some(&serde_json::Value::Bool(true)));
    assert_eq!(v.pointer("/brave/p3a/notice_acknowledged"), Some(&serde_json::Value::Bool(true)));
    assert_eq!(v.pointer("/brave/ai_chat/show_toolbar_button"), Some(&serde_json::Value::Bool(false)));
    assert_eq!(v.pointer("/other"), Some(&serde_json::Value::from(1)));
    assert_eq!(seed_prefs_file(true, &Some(out.clone()), local_state_entries()), None);
    let fresh = seed_prefs_file(false, &Some("[1]".into()), preferences_entries()).unwrap();
    let v: serde_json::Value = serde_json::from_str(&fresh).unwrap();
    assert_eq!(v.pointer("/extensions/ui/developer_mode"), Some(&serde_json::Value::Bool(true)));
}

#[test]
fn chromium_time_counts_from_1601() {
    assert_eq!(chromium_timestamp(Timestamp { secs: 0, nanos: 1_999 }), "11644473600000001");
    assert_eq!(chromium_timestamp(Timestamp { secs: -5, nanos: 0 }), "11644473600000000");
}

#[test]
fn brave_is_looked_for_in_shipped_layouts_first() {
    let c = brave_candidates(Some("/env".into()), Some("/app".into()), false);
    assert_eq!(c[0], "/env/brave");
    assert_eq!(c[1], "/app/brave/brave");
    assert_eq!(c[6], "/app/resources/binaries/linux-x86_64/brave/brave");
    assert_eq!(c.last().map(String::as_str), Some("/opt/brave.com/brave/brave"));
    assert_eq!(c.len(), 9);
    assert_eq!(brave_exe_name(true), "brave.exe");
    assert_eq!(
        missing_brave_message(&vec!["/a".into(), "/b".into()]),
        "no Brave binary found; searched: /a, /b"
    );
    let e = extension_candidates("/x/y");
    assert_eq!(e, vec!["/x/y/extension/yood", "/x/y/resources/extension/yood", "/x/y/extension/yood", "/x/extension/yood", "/extension/yood"]);
}

#[test]
fn brave_starts_in_app_mode_with_its_own_profile() {
    let args = brave_args("https://www.youtube.com", "/p", true, &Some("/e".into()));
    assert_eq!(args[0], "--app=https://www.youtube.com");
    assert_eq!(args[1], "--user-data-dir=/p");
    assert_eq!(args[12], "--class=yood");
    assert_eq!(args[13], "--load-extension=/e");
    assert_eq!(brave_args("u", "p", false, &None).len(), 12);
    assert_eq!(launch_url(None), "https://www.youtube.com");
    assert_eq!(profile_dir("/data"), "/data/brave-profile");
}
