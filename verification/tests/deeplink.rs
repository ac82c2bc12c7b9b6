use yood::deeplink::{
    download_url_from_str, link_request, navigation_script, startup_url, youtube_url_from_str,
};
use yood::models::DownloadMode;

#[test]
fn parses_extension_download_links() {
    let good = download_url_from_str(
        "yood://download?url=https%3A%2F%2Fwww.youtube.com%2Fwatch%3Fv%3Dabc123",
    )
    .expect("valid download link");
    assert_eq!(good.url, "https://www.youtube.com/watch?v=abc123");
    assert_eq!(good.quality, "best");
    assert_eq!(good.container, "mp4");
    assert!(!good.subtitles);
    let full = download_url_from_str(
        "yood://download?url=https%3A%2F%2Fyoutu.be%2Fabc12312345&mode=audio&quality=720&container=mkv&format_selector=best&subtitles=1&embed_thumbnail=1",
    )
    .expect("full download link");
    assert!(matches!(full.mode, DownloadMode::Audio));
    assert_eq!(full.quality, "720");
    assert_eq!(full.container, "mkv");
    assert_eq!(full.format_selector.as_deref(), Some("best"));
    assert!(full.subtitles && full.embed_thumbnail);
    let sub = download_url_from_str(
        "yood://download?url=https%3A%2F%2Fwww.youtube.com%2Fwatch%3Fv%3Dabc123&subtitles=1&subtitle_lang=he",
    )
    .expect("subtitle download link");
    assert!(sub.subtitles);
    assert_eq!(sub.subtitle_language.as_deref(), Some("he"));
    assert!(download_url_from_str(
        "yood://download?url=https%3A%2F%2Fwww.youtube.com%2Fwatch%3Fv%3Dabc123&subtitle_lang=xx!!"
    )
    .is_none());
    assert!(download_url_from_str("https://www.youtube.com/watch?v=abc123").is_none());
    assert!(download_url_from_str("yood://www.youtube.com/watch?v=abc123").is_none());
    assert!(download_url_from_str("yood://download").is_none());
    assert!(download_url_from_str("yood://download?url=https%3A%2F%2Fexample.test%2Fevil").is_none());
    assert!(download_url_from_str("yood://download?url=javascript%3Aalert(1)").is_none());
    assert!(download_url_from_str(
        "yood://download?url=https%3A%2F%2Fwww.youtube.com%2Fwatch%3Fv%3Dabc123&mode=evil"
    )
    .is_none());
    assert!(download_url_from_str(
        "yood://download?url=https%3A%2F%2Fwww.youtube.com%2Fwatch%3Fv%3Dabc123&container=exe"
    )
    .is_none());
    assert!(download_url_from_str(
        "yood://download?url=https%3A%2F%2Fwww.youtube.com%2Fwatch%3Fv%3Dabc123&quality=8k"
    )
    .is_none());
}

#[test]
fn later_link_options_win_and_become_requests() {
    let link = download_url_from_str(
        "yood://download?url=https%3A%2F%2Fexample.test%2F&url=https%3A%2F%2Fm.youtube.com%2Fwatch%3Fv%3Dz&mode=songs&format_selector=",
    )
    .expect("last url wins");
    assert_eq!(link.url, "https://m.youtube.com/watch?v=z");
    assert!(matches!(link.mode, DownloadMode::Songs));
    assert_eq!(link.format_selector, None);
    let request = link_request(link);
    assert_eq!(request.context.as_deref(), Some("extension"));
    assert_eq!(request.audio_quality, None);
}

#[test]
fn opens_youtube_pages_from_arguments() {
    assert_eq!(
        youtube_url_from_str("yood://www.youtube.com/watch?v=ID").as_deref(),
        Some("https://www.youtube.com/watch?v=ID")
    );
    assert_eq!(
        youtube_url_from_str("https://youtu.be/x").as_deref(),
        Some("https://youtu.be/x")
    );
    assert_eq!(youtube_url_from_str("https://accounts.google.com/"), None);
    assert_eq!(youtube_url_from_str("--flag"), None);
    let args = vec!["--flag".to_string(), "https://www.youtube.com/".to_string()];
    assert_eq!(startup_url(&args).as_deref(), Some("https://www.youtube.com/"));
    assert_eq!(
        navigation_script("https://www.youtube.com/watch?v=\"x").as_deref(),
        Some("window.location.replace(\"https://www.youtube.com/watch?v=%22x\");")
    );
}

#[test]
fn flags_are_found_among_the_arguments() {
    let args = vec!["https://www.youtube.com/".to_string(), "--quit".to_string()];
    assert!(yood::deeplink::has_argument(&args, "--quit"));
    assert!(!yood::deeplink::has_argument(&args, "--self-test"));
    assert!(!yood::deeplink::has_argument(&vec!["--quitx".to_string()], "--quit"));
}
