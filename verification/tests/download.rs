use yood::download::{
    build_download_args, download_failure, download_stem, fallback_file_name, finish_outcome,
    format_bytes, insufficient_disk_space, is_disk_full_error, metadata_size, needed_space,
    next_target_step, normalise_progress_text, parse_player_source, parse_progress, pick_media,
    safe_diagnostic, space_error, target_file_name, validate_request, MediaCandidate, RunOutcome,
    TargetStep,
};
use yood::error::{AppError, AppErrorKind};
use yood::metadata::parse_inspect;
use yood::models::{DownloadMode, DownloadRequest, DownloadStatus, Settings};

#[test]
fn builds_direct_arguments_without_shell_interpretation() {
    let settings = Settings::default();
    let request = DownloadRequest {
        url: "https://www.youtube.com/watch?v=abc".into(),
        ..Default::default()
    };
    let args = build_download_args(&request, "/tmp/yood", &settings).unwrap();
    assert!(args.windows(2).any(|pair| pair == ["--output", "yood-source.%(ext)s"]));
    assert!(args.contains(&request.url));
}

#[test]
fn parses_progress() {
    let progress = parse_progress("download:42.5%|1.2MiB/s|00:03|1234").unwrap();
    assert_eq!(progress.percent.parse::<f32>().unwrap(), 42.5);
    assert_eq!(progress.bytes, Some(1234));
}

#[test]
fn progress_fields_are_normalised() {
    let p = parse_progress("download: 7%% | N/A |  | x").unwrap();
    assert_eq!(p.percent, "7");
    assert_eq!(p.speed, None);
    assert_eq!(p.eta, None);
    assert_eq!(p.bytes, None);
    assert!(parse_progress("download:1|2|3").is_none());
    assert!(parse_progress("[download] 1%").is_none());
    assert_eq!(normalise_progress_text("  1.5MiB/s "), Some("1.5MiB/s".to_string()));
    let long = "x".repeat(40);
    assert_eq!(normalise_progress_text(&long), Some("x".repeat(32)));
}

#[test]
fn accepts_only_https_player_sources() {
    assert!(parse_player_source("https://rr1---sn.example.test/media.mp4\n").is_ok());
    assert!(parse_player_source("http://example.test/media.mp4\n").is_err());
    assert!(parse_player_source("not a URL\n").is_err());
}

#[test]
fn player_source_errors_say_why() {
    let none = parse_player_source("nothing here\n").unwrap_err();
    assert_eq!(none.to_string(), "external process failed: yt-dlp returned no playable media URL");
    let picked = parse_player_source("noise\n  https://a.example.test/x.mp4  \nhttps://b.example.test/y\n")
        .unwrap();
    assert_eq!(picked, "https://a.example.test/x.mp4");
}

#[test]
fn picks_unique_targets_when_not_overwriting() {
    let mut existing: Vec<String> = Vec::new();
    let pick = |existing: &Vec<String>, overwrite: bool| -> String {
        let mut attempt = 0u32;
        loop {
            let name = target_file_name("song", "mp3", attempt);
            match next_target_step(attempt, overwrite, existing.contains(&name)) {
                TargetStep::Take => return name,
                TargetStep::Next(n) => attempt = n,
                TargetStep::Fallback => return fallback_file_name("song", "unique", "mp3"),
            }
        }
    };
    let first = pick(&existing, false);
    assert_eq!(first, "song.mp3");
    existing.push(first);
    let second = pick(&existing, false);
    assert_eq!(second, "song (1).mp3");
    existing.push(second);
    let overwrite = pick(&existing, true);
    assert_eq!(overwrite, "song.mp3");
}

#[test]
fn target_numbering_stops_before_ten_thousand() {
    assert_eq!(next_target_step(9999, false, true), TargetStep::Fallback);
    assert_eq!(next_target_step(3, true, true), TargetStep::Next(4));
    assert_eq!(next_target_step(0, true, true), TargetStep::Take);
    assert_eq!(target_file_name("a", "b", 12), "a (12).b");
    assert_eq!(fallback_file_name("a", "u", "b"), "a-u.b");
}

#[test]
fn parses_filesize_from_inspect_json() {
    let json = r#"{"title":"T","uploader":"U","filesize":123456789,"filesize_approx":999}
"#;
    let result = parse_inspect(json).unwrap();
    assert_eq!(result.size_bytes, Some(123456789));
    let json_approx = r#"{"title":"T","filesize_approx":42}
"#;
    assert_eq!(parse_inspect(json_approx).unwrap().size_bytes, Some(42));
    let json_none = r#"{"title":"T"}
"#;
    assert_eq!(parse_inspect(json_none).unwrap().size_bytes, None);
}

#[test]
fn inspect_reads_playlists_and_single_videos() {
    let playlist = "garbage\n{\"title\":\"P\",\"entries\":[{\"id\":\"a\",\"title\":\"A\",\"duration\":61},{\"id\":\"\"},{\"id\":\"b\",\"url\":\"ftp://x\",\"channel\":\"C\",\"duration_string\":\"1:01\"}]}\n";
    let r = parse_inspect(playlist).unwrap();
    assert_eq!(r.title.as_deref(), Some("P"));
    assert_eq!(r.entries.len(), 2);
    assert_eq!(r.entries[0].url, "https://www.youtube.com/watch?v=a");
    assert_eq!(r.entries[0].duration.as_deref(), Some("61"));
    assert_eq!(r.entries[1].title, "Untitled video");
    assert_eq!(r.entries[1].channel, "C");
    assert_eq!(r.entries[1].duration.as_deref(), Some("\"1:01\""));
    let single = "{\"id\":\"v\",\"webpage_url\":\"https://youtu.be/v\",\"uploader\":null,\"channel\":\"C\",\"duration\":null}\n";
    let s = parse_inspect(single).unwrap();
    assert_eq!(s.entries.len(), 1);
    assert_eq!(s.entries[0].url, "https://youtu.be/v");
    assert_eq!(s.entries[0].channel, "");
    assert_eq!(s.channel, None);
    assert_eq!(s.duration, None);
    let bad = parse_inspect("not json\n").unwrap_err();
    assert_eq!(bad.kind(), AppErrorKind::Process);
    assert_eq!(metadata_size(&s), None);
}

#[test]
fn audio_mode_builds_mp3_args_and_songs_embed_metadata() {
    let settings = Settings::default();
    let audio = DownloadRequest {
        url: "https://www.youtube.com/watch?v=abc".into(),
        mode: DownloadMode::Audio,
        ..Default::default()
    };
    let args = build_download_args(&audio, "/tmp/yood", &settings).unwrap();
    assert!(args.windows(2).any(|p| p == ["--audio-format", "mp3"]));
    assert!(args.windows(2).any(|p| p == ["-f", "bestaudio/best"]));
    assert!(!args.iter().any(|a| a == "--embed-thumbnail"));
    let songs = DownloadRequest {
        url: "https://www.youtube.com/watch?v=abc".into(),
        mode: DownloadMode::Songs,
        ..Default::default()
    };
    let args = build_download_args(&songs, "/tmp/yood", &settings).unwrap();
    assert!(args.iter().any(|a| a == "--embed-thumbnail"));
    assert!(args.iter().any(|a| a == "--add-metadata"));
}

#[test]
fn detects_disk_full_errors() {
    assert!(is_disk_full_error("ERROR: No space left on device"));
    assert!(is_disk_full_error("disk quota exceeded while writing"));
    assert!(is_disk_full_error("insufficient space available"));
    assert!(!is_disk_full_error("network error occurred"));
}

#[test]
fn formats_human_bytes() {
    assert_eq!(format_bytes(512), "512 B");
    assert_eq!(format_bytes(2048), "2.0 KiB");
    assert_eq!(format_bytes(5 * 1024 * 1024), "5.0 MiB");
    assert_eq!(format_bytes(3 * 1024 * 1024 * 1024), "3.0 GiB");
}

fn reference_format(bytes: u64) -> String {
    let units = ["B", "KiB", "MiB", "GiB", "TiB"];
    let mut value = bytes as f64;
    let mut unit = 0;
    while value >= 1024.0 && unit + 1 < units.len() {
        value /= 1024.0;
        unit += 1;
    }
    if unit == 0 {
        format!("{bytes} B")
    } else {
        format!("{value:.1} {}", units[unit])
    }
}

#[test]
fn byte_formatting_matches_float_formatting() {
    let mut samples: Vec<u64> = vec![
        0, 1, 1023, 1024, 1025, 1075, 1076, 1126, 1127, 10239, 10240, 1048575, 1048576,
        1073741823, 1073741824, 1099511627775, 1099511627776, 5 << 40, 1 << 53, (1 << 53) + 1,
        u64::MAX, u64::MAX - 1, 9_007_199_254_740_993, 123_456_789_012_345,
    ];
    let mut x: u64 = 0x9E37_79B9_7F4A_7C15;
    for _ in 0..2000 {
        x ^= x << 13;
        x ^= x >> 7;
        x ^= x << 17;
        samples.push(x >> (x % 64));
    }
    for b in samples {
        assert_eq!(format_bytes(b), reference_format(b), "bytes {b}");
    }
}

#[test]
fn validates_requests() {
    let good = DownloadRequest {
        url: "https://www.youtube.com/watch?v=abc".into(),
        container: "mkv".into(),
        ..Default::default()
    };
    assert!(validate_request(&good).is_ok());
    let bad_container = DownloadRequest {
        url: "https://www.youtube.com/watch?v=abc".into(),
        container: "avi".into(),
        ..Default::default()
    };
    assert!(validate_request(&bad_container).is_err());
    let bad_selector = DownloadRequest {
        url: "https://www.youtube.com/watch?v=abc".into(),
        format_selector: Some("rm -rf /".into()),
        ..Default::default()
    };
    assert!(validate_request(&bad_selector).is_ok());
    let control_selector = DownloadRequest {
        url: "https://www.youtube.com/watch?v=abc".into(),
        format_selector: Some("foo\nbar".into()),
        ..Default::default()
    };
    assert!(validate_request(&control_selector).is_err());
}

#[test]
fn diagnostics_hide_urls_and_collapse_blanks() {
    assert_eq!(
        safe_diagnostic("ERROR:  fetch  https://x.test/a?t=1\n failed http://y"),
        "ERROR: fetch [URL redacted] failed [URL redacted]"
    );
    assert_eq!(safe_diagnostic(&"ab ".repeat(600)).chars().count(), 1000);
    assert_eq!(safe_diagnostic("   "), "");
}

#[test]
fn disk_space_checks_ask_for_a_margin() {
    assert_eq!(needed_space(2000), 2100);
    assert_eq!(needed_space(u64::MAX), u64::MAX);
    assert_eq!(insufficient_disk_space(10, 11), Some(10));
    assert_eq!(insufficient_disk_space(11, 11), None);
    let e = space_error(2048, 512, "/media/x");
    assert_eq!(
        e.to_string(),
        "storage error: not enough free disk space: need about 2.0 KiB, only 512 B free on /media/x"
    );
}

#[test]
fn failed_runs_are_reported_by_their_cause() {
    let full = download_failure("", "write: No space left on device");
    assert!(matches!(full, AppError::Storage(_)));
    let other = download_failure("ERROR: see https://x.test/y", "ignored");
    assert_eq!(other.to_string(), "external process failed: ERROR: see [URL redacted]");
}

#[test]
fn the_largest_media_file_is_picked() {
    let c = |ext: Option<&str>, size: u64, file: bool, link: bool| MediaCandidate {
        extension: ext.map(|e| e.to_string()),
        size,
        is_file: file,
        is_symlink: link,
    };
    let entries = vec![
        c(Some("part"), 900, true, false),
        c(Some("mp4"), 500, true, false),
        c(Some("webm"), 500, true, false),
        c(Some("mkv"), 999, true, true),
        c(None, 100, true, false),
        c(Some("jpg"), 800, true, false),
    ];
    assert_eq!(pick_media(&entries), Some(2));
    assert_eq!(pick_media(&vec![c(Some("json"), 1, true, false)]), None);
}

#[test]
fn finished_stems_and_outcomes() {
    assert_eq!(download_stem("Chan", "Title?"), "Chan - Title_");
    let (status, error, output) = finish_outcome(RunOutcome::Failed(AppError::Timeout));
    assert_eq!(status, DownloadStatus::Failed);
    assert_eq!(error.as_deref(), Some("operation timed out"));
    assert_eq!(output, None);
    let (status, _, output) = finish_outcome(RunOutcome::Completed("/x".into()));
    assert_eq!(status, DownloadStatus::Completed);
    assert_eq!(output.as_deref(), Some("/x"));
}

#[test]
fn target_steps_walk_to_the_first_free_name() {
    use_step(0, true, true, yood::download::TargetStep::Take);
    use_step(0, false, true, yood::download::TargetStep::Next(1));
    use_step(1, false, false, yood::download::TargetStep::Take);
    use_step(9999, false, true, yood::download::TargetStep::Fallback);
}

fn use_step(attempt: u32, overwrite: bool, taken: bool, expected: yood::download::TargetStep) {
    assert_eq!(yood::download::next_target_step(attempt, overwrite, taken), expected);
}

#[test]
fn progress_needs_a_percentage_that_parses() {
    assert!(parse_progress("download: N/A |1|2|3").is_none());
    assert!(parse_progress("download:1.2.3%|1|2|3").is_none());
    assert!(parse_progress("download:%|1|2|3").is_none());
    assert_eq!(parse_progress("download: 1e2% |1|2|3").unwrap().percent, "1e2");
    assert_eq!(parse_progress("download:+.5%|1|2|3").unwrap().percent, "+.5");
}

#[test]
fn float_grammar_matches_std() {
    for text in [
        "0", "42.5", "+1", "-1.", ".5", "1e5", "1E-5", "1e+5", "inf", "-Infinity", "NaN", "nan",
        "", ".", "+", "e5", "1e", "1e+", "1..2", "1.2.3", " 1", "1 ", "0x10", "1_0", "infinit", "--1",
        "1e5.0", "5.e3", "+-1", "∞", "١",
    ] {
        let chars: Vec<char> = text.chars().collect();
        assert_eq!(yood::text::is_float_literal(&chars), text.parse::<f32>().is_ok(), "{text}");
    }
}

#[test]
fn titles_and_missing_media() {
    assert_eq!(yood::download::download_title(&None), "YouTube download");
    assert_eq!(yood::download::download_title(&Some("Song".into())), "Song");
    assert_eq!(yood::download::media_or_failure(Some("/t/a.mp4".into())).unwrap(), "/t/a.mp4");
    assert_eq!(
        yood::download::media_or_failure(None).unwrap_err().to_string(),
        "external process failed: yt-dlp completed without producing a media file"
    );
}
