use yood::models::{Settings, SettingsPatch};
use yood::settings::{apply_patch, mark_filter_success_at, migrate, validate, CURRENT_SCHEMA};
use yood::models::Timestamp;

#[test]
fn default_settings_are_valid() {
    let settings = Settings::default();
    assert_eq!(settings.schema_version, CURRENT_SCHEMA);
    assert_eq!(settings.log_level, "INFO");
    assert_eq!(settings.shortcut_download, "d");
    assert!(validate(&settings).is_ok());
}

#[test]
fn migrates_legacy_schema_and_backfills_filter_lists() {
    let mut settings = Settings::default();
    settings.schema_version = 0;
    settings.filter_list_urls = vec!["https://example.test/custom.txt".into()];
    migrate(&mut settings).unwrap();
    assert_eq!(settings.schema_version, CURRENT_SCHEMA);
    assert!(settings.filter_list_urls.contains(&"https://easylist.to/easylist/easylist.txt".into()));
    assert!(settings.filter_list_urls.contains(&"https://example.test/custom.txt".into()));
    assert!(validate(&settings).is_ok());
}

#[test]
fn rejects_newer_schema() {
    let mut settings = Settings::default();
    settings.schema_version = CURRENT_SCHEMA + 1;
    assert!(migrate(&mut settings).is_err());
}

#[test]
fn rejects_invalid_settings() {
    let mut settings = Settings::default();
    settings.max_concurrent_downloads = 0;
    assert!(validate(&settings).is_err());
    settings = Settings::default();
    settings.max_concurrent_downloads = 5;
    assert!(validate(&settings).is_err());
    settings = Settings::default();
    settings.download_directory = settings.temp_directory.clone();
    assert!(validate(&settings).is_err());
    settings = Settings::default();
    settings.log_level = "VERBOSE".into();
    assert!(validate(&settings).is_err());
    settings = Settings::default();
    settings.shortcut_download = "dd".into();
    assert!(validate(&settings).is_err());
    settings = Settings::default();
    settings.shortcut_download = " ".into();
    assert!(validate(&settings).is_err());
}

#[test]
fn apply_patch_updates_fields() {
    let mut settings = Settings::default();
    let patch = SettingsPatch {
        log_level: Some("DEBUG".into()),
        shortcut_download: Some("x".into()),
        tracking_protection: Some(true),
        ..Default::default()
    };
    apply_patch(&mut settings, patch).unwrap();
    assert_eq!(settings.log_level, "DEBUG");
    assert_eq!(settings.shortcut_download, "x");
    assert!(settings.tracking_protection);
}

#[test]
fn migration_is_idempotent_and_keeps_user_lists_first() {
    let mut settings = Settings::default();
    settings.filter_list_urls = vec!["https://example.test/custom.txt".into()];
    migrate(&mut settings).unwrap();
    let once = settings.filter_list_urls.clone();
    assert_eq!(once[0], "https://example.test/custom.txt");
    migrate(&mut settings).unwrap();
    assert_eq!(settings.filter_list_urls, once);
}

#[test]
fn an_empty_patch_changes_nothing() {
    let mut settings = Settings::default();
    let before = settings.clone();
    apply_patch(&mut settings, SettingsPatch::default()).unwrap();
    assert_eq!(settings.log_level, before.log_level);
    assert_eq!(settings.download_directory, before.download_directory);
    assert_eq!(settings.filter_list_urls, before.filter_list_urls);
    assert_eq!(settings.max_concurrent_downloads, before.max_concurrent_downloads);
}

#[test]
fn filter_success_records_time_and_tags() {
    let mut settings = Settings::default();
    settings.filter_etags = vec![("a".into(), "1".into())];
    let now = Timestamp { secs: 10, nanos: 0 };
    mark_filter_success_at(
        &mut settings,
        vec![("b".into(), "2".into()), ("a".into(), "3".into())],
        now,
    );
    assert_eq!(settings.filter_last_success, Some(now));
    assert_eq!(settings.filter_etags, vec![("a".to_string(), "3".to_string()), ("b".to_string(), "2".to_string())]);
}
