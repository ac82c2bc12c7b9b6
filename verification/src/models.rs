//! The data the application keeps and exchanges with its frontend.
//!
//! Paths are held as text, instants as seconds and nanoseconds since the Unix
//! epoch, and a download's progress percentage as the bit pattern of the
//! `f32` the frontend shows.
use vstd::prelude::*;

verus! {

/// An instant: seconds since the Unix epoch and the nanoseconds within that second.
#[derive(Debug, Clone, Copy, PartialEq, Eq, Structural)]
pub struct Timestamp {
    pub secs: i64,
    pub nanos: u32,
}

/// `a` is at or after `b`.
pub open spec fn ts_ge(a: Timestamp, b: Timestamp) -> bool {
    a.secs > b.secs || (a.secs == b.secs && a.nanos >= b.nanos)
}

pub fn timestamp_ge(a: Timestamp, b: Timestamp) -> (r: bool)
    ensures
        r == ts_ge(a, b),
{
    a.secs > b.secs || (a.secs == b.secs && a.nanos >= b.nanos)
}

#[derive(Debug, Clone, Copy, PartialEq, Eq, Structural)]
pub enum Appearance {
    Light,
    Dark,
    System,
}

impl Default for Appearance {
    fn default() -> (r: Appearance)
        ensures
            r == Appearance::System,
    {
        Appearance::System
    }
}

#[derive(Debug, Clone, Copy, PartialEq, Eq, Structural)]
pub enum DownloadMode {
    Video,
    Audio,
    Songs,
}

impl Default for DownloadMode {
    fn default() -> (r: DownloadMode)
        ensures
            r == DownloadMode::Video,
    {
        DownloadMode::Video
    }
}

#[derive(Debug, Clone, Copy, PartialEq, Eq, Structural)]
pub enum DownloadStatus {
    Queued,
    Downloading,
    Paused,
    Interrupted,
    Completed,
    Failed,
    Cancelled,
}

/// Application settings, as stored in the settings file.
#[derive(Debug, Clone)]
pub struct Settings {
    pub schema_version: u32,
    pub appearance: Appearance,
    pub tracking_protection: bool,
    pub aggressive_tracking_protection: bool,
    pub max_concurrent_downloads: u8,
    pub download_directory: String,
    pub temp_directory: String,
    pub cleanup_temp_files: bool,
    pub overwrite_existing: bool,
    pub embed_thumbnail: bool,
    pub download_subtitles: bool,
    pub subtitle_language: String,
    pub shortcut_download: String,
    pub filter_list_urls: Vec<String>,
    pub filter_last_success: Option<Timestamp>,
    /// `(list URL, entity tag)` pairs, at most one per URL.
    pub filter_etags: Vec<(String, String)>,
    pub ytdlp_last_update: Option<Timestamp>,
    pub log_level: String,
}

/// A partial update of [`Settings`]: each field that is present replaces the setting.
#[derive(Debug, Clone)]
pub struct SettingsPatch {
    pub appearance: Option<Appearance>,
    pub tracking_protection: Option<bool>,
    pub aggressive_tracking_protection: Option<bool>,
    pub max_concurrent_downloads: Option<u8>,
    pub download_directory: Option<String>,
    pub temp_directory: Option<String>,
    pub cleanup_temp_files: Option<bool>,
    pub overwrite_existing: Option<bool>,
    pub embed_thumbnail: Option<bool>,
    pub download_subtitles: Option<bool>,
    pub subtitle_language: Option<String>,
    pub log_level: Option<String>,
    pub shortcut_download: Option<String>,
}

impl Default for SettingsPatch {
    fn default() -> (r: SettingsPatch)
        ensures
            r.appearance is None,
            r.tracking_protection is None,
            r.aggressive_tracking_protection is None,
            r.max_concurrent_downloads is None,
            r.download_directory is None,
            r.temp_directory is None,
            r.cleanup_temp_files is None,
            r.overwrite_existing is None,
            r.embed_thumbnail is None,
            r.download_subtitles is None,
            r.subtitle_language is None,
            r.log_level is None,
            r.shortcut_download is None,
    {
        SettingsPatch {
            appearance: None,
            tracking_protection: None,
            aggressive_tracking_protection: None,
            max_concurrent_downloads: None,
            download_directory: None,
            temp_directory: None,
            cleanup_temp_files: None,
            overwrite_existing: None,
            embed_thumbnail: None,
            download_subtitles: None,
            subtitle_language: None,
            log_level: None,
            shortcut_download: None,
        }
    }
}

/// What the user asked to download, and how.
#[derive(Debug, Clone)]
pub struct DownloadRequest {
    pub url: String,
    pub mode: DownloadMode,
    pub quality: String,
    pub container: String,
    pub format_selector: Option<String>,
    pub audio_quality: Option<String>,
    pub subtitles: bool,
    pub subtitle_language: Option<String>,
    pub embed_thumbnail: bool,
    pub context: Option<String>,
}

impl Default for DownloadRequest {
    fn default() -> (r: DownloadRequest)
        ensures
            r.url@ == Seq::<char>::empty(),
            r.mode == DownloadMode::Video,
            r.quality@ == "best"@,
            r.container@ == "mp4"@,
            r.format_selector is None,
            r.audio_quality is None,
            !r.subtitles,
            r.subtitle_language is None,
            !r.embed_thumbnail,
            r.context is None,
    {
        DownloadRequest {
            url: String::new(),
            mode: DownloadMode::Video,
            quality: String::from_str("best"),
            container: String::from_str("mp4"),
            format_selector: None,
            audio_quality: None,
            subtitles: false,
            subtitle_language: None,
            embed_thumbnail: false,
            context: None,
        }
    }
}

/// One entry of the download queue and history.
#[derive(Debug, Clone)]
pub struct DownloadItem {
    pub id: String,
    pub request: DownloadRequest,
    pub title: String,
    pub channel: String,
    pub thumbnail: Option<String>,
    pub output_path: Option<String>,
    pub status: DownloadStatus,
    /// The bits of the `f32` percentage (0 to 100) shown to the user.
    pub progress_bits: u32,
    pub speed: Option<String>,
    pub eta: Option<String>,
    pub total_bytes: Option<u64>,
    pub downloaded_bytes: Option<u64>,
    pub error: Option<String>,
    pub created_at: Timestamp,
    pub completed_at: Option<Timestamp>,
}

/// The bits of `0.0f32`.
pub const PROGRESS_ZERO_BITS: u32 = 0u32;

/// The bits of `100.0f32`.
pub const PROGRESS_FULL_BITS: u32 = 0x42c8_0000u32;

#[derive(Debug, Clone)]
pub struct VideoEntry {
    pub id: String,
    pub url: String,
    pub title: String,
    pub channel: String,
    pub duration: Option<String>,
    pub thumbnail: Option<String>,
}

/// What yt-dlp reports about a URL before downloading it.
#[derive(Debug, Clone)]
pub struct InspectResult {
    pub title: Option<String>,
    pub channel: Option<String>,
    pub duration: Option<String>,
    pub thumbnail: Option<String>,
    pub size_bytes: Option<u64>,
    pub entries: Vec<VideoEntry>,
}

#[derive(Debug, Clone)]
pub struct BinaryStatus {
    pub name: String,
    pub path: Option<String>,
    pub version: Option<String>,
    pub available: bool,
    pub bundled: bool,
}

#[derive(Debug, Clone)]
pub struct FilterStatus {
    pub enabled: bool,
    pub tracking_enabled: bool,
    pub rule_count: usize,
    pub last_success: Option<Timestamp>,
    pub cache_path: Option<String>,
}

#[derive(Debug, Clone)]
pub struct FilterScriptRules {
    pub blocked_hosts: Vec<String>,
    pub cosmetic_selectors: Vec<String>,
}

#[derive(Debug, Clone)]
pub struct AppInfo {
    pub version: String,
    pub platform: String,
    pub binaries: Vec<BinaryStatus>,
    pub filter: FilterStatus,
}

/// What the native player window is asked to play.
#[derive(Debug, Clone)]
pub struct PlayerPayload {
    pub source: String,
    pub title: String,
}

pub fn copy_string(s: &String) -> (r: String)
    ensures
        r == *s,
{
    s.clone()
}

pub fn copy_opt_string(s: &Option<String>) -> (r: Option<String>)
    ensures
        r == *s,
{
    match s {
        Some(x) => Some(x.clone()),
        None => None,
    }
}

impl DownloadRequest {
    pub fn copy(&self) -> (r: DownloadRequest)
        ensures
            r == *self,
    {
        DownloadRequest {
            url: self.url.clone(),
            mode: self.mode,
            quality: self.quality.clone(),
            container: self.container.clone(),
            format_selector: copy_opt_string(&self.format_selector),
            audio_quality: copy_opt_string(&self.audio_quality),
            subtitles: self.subtitles,
            subtitle_language: copy_opt_string(&self.subtitle_language),
            embed_thumbnail: self.embed_thumbnail,
            context: copy_opt_string(&self.context),
        }
    }
}

impl DownloadItem {
    pub fn copy(&self) -> (r: DownloadItem)
        ensures
            r == *self,
    {
        DownloadItem {
            id: self.id.clone(),
            request: self.request.copy(),
            title: self.title.clone(),
            channel: self.channel.clone(),
            thumbnail: copy_opt_string(&self.thumbnail),
            output_path: copy_opt_string(&self.output_path),
            status: self.status,
            progress_bits: self.progress_bits,
            speed: copy_opt_string(&self.speed),
            eta: copy_opt_string(&self.eta),
            total_bytes: self.total_bytes,
            downloaded_bytes: self.downloaded_bytes,
            error: copy_opt_string(&self.error),
            created_at: self.created_at,
            completed_at: self.completed_at,
        }
    }
}

} // verus!
