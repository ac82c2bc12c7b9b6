//! Settings: their defaults, the schema migration, patching, and the rules a
//! stored configuration must satisfy.
use vstd::prelude::*;
use crate::error::{AppError, AppErrorKind};
use crate::models::{Appearance, Settings, SettingsPatch, Timestamp};
use crate::paths::{
    contains_parent_dir, has_parent_dir, is_absolute, join, join_path, normal_parts,
    parts_eq, path_is_absolute, path_parts, same_path,
};
use crate::text::{
    any_control, byte_len, char_is_ascii_alphanumeric, chars_eq, decimal, has_control,
    is_ascii_alphanumeric, str_chars, string_views, u64_decimal, utf8_byte_len, chars_string,
};

verus! {

/// The settings schema this build writes.
pub const CURRENT_SCHEMA: u32 = 2u32;

/// The filter lists every installation subscribes to.
pub open spec fn default_filter_urls() -> Seq<Seq<char>> {
    seq![
        "https://easylist.to/easylist/easylist.txt"@,
        "https://easylist.to/easylist/easyprivacy.txt"@,
        "https://raw.githubusercontent.com/uBlockOrigin/uAssets/master/filters/filters.txt"@,
        "https://raw.githubusercontent.com/uBlockOrigin/uAssets/master/filters/privacy.txt"@,
        "https://raw.githubusercontent.com/brave/adblock-lists/master/brave-lists/brave-specific.txt"@,
        "https://raw.githubusercontent.com/brave/adblock-lists/master/brave-lists/brave-firstparty.txt"@,
        "https://raw.githubusercontent.com/brave/adblock-lists/master/brave-unbreak.txt"@,
        "https://raw.githubusercontent.com/easylist/EasyListHebrew/master/EasyListHebrew.txt"@,
    ]
}

/// The default filter list URLs, in order.
pub fn default_filter_list_urls() -> (r: Vec<String>)
    ensures
        string_views(r@) == default_filter_urls(),
{
    let mut r: Vec<String> = Vec::new();
    r.push(String::from_str("https://easylist.to/easylist/easylist.txt"));
    r.push(String::from_str("https://easylist.to/easylist/easyprivacy.txt"));
    r.push(
        String::from_str(
            "https://raw.githubusercontent.com/uBlockOrigin/uAssets/master/filters/filters.txt",
        ),
    );
    r.push(
        String::from_str(
            "https://raw.githubusercontent.com/uBlockOrigin/uAssets/master/filters/privacy.txt",
        ),
    );
    r.push(
        String::from_str(
            "https://raw.githubusercontent.com/brave/adblock-lists/master/brave-lists/brave-specific.txt",
        ),
    );
    r.push(
        String::from_str(
            "https://raw.githubusercontent.com/brave/adblock-lists/master/brave-lists/brave-firstparty.txt",
        ),
    );
    r.push(
        String::from_str(
            "https://raw.githubusercontent.com/brave/adblock-lists/master/brave-unbreak.txt",
        ),
    );
    r.push(
        String::from_str(
            "https://raw.githubusercontent.com/easylist/EasyListHebrew/master/EasyListHebrew.txt",
        ),
    );
    assert(string_views(r@) =~= default_filter_urls());
    r
}

/// The platform's per-user directories for an application: data, cache and
/// configuration, from the directories crate's `ProjectDirs::from`. The
/// contract states nothing: the answer depends on the user's environment.
#[verifier::external_body]
fn project_dirs(qualifier: &str, organization: &str, application: &str) -> Option<
    (String, String, String),
> {
    directories::ProjectDirs::from(qualifier, organization, application).map(
        |p|
            (
                p.data_dir().to_string_lossy().into_owned(),
                p.cache_dir().to_string_lossy().into_owned(),
                p.config_dir().to_string_lossy().into_owned(),
            ),
    )
}

/// The download and temporary folders of fresh settings, from the project
/// directories where there are any.
pub open spec fn default_dirs(d: Option<(String, String, String)>) -> (Seq<char>, Seq<char>) {
    match d {
        Some(dirs) => (join(dirs.0@, "downloads"@), join(dirs.1@, "tmp"@)),
        None => ("downloads"@, ".yood-tmp"@),
    }
}

/// Settings as a fresh installation has them, with the given folders.
pub open spec fn is_default_settings(s: Settings, download: Seq<char>, temp: Seq<char>) -> bool {
    &&& s.schema_version == CURRENT_SCHEMA
    &&& s.appearance == Appearance::System
    &&& !s.tracking_protection
    &&& !s.aggressive_tracking_protection
    &&& s.max_concurrent_downloads == 2
    &&& s.download_directory@ == download
    &&& s.temp_directory@ == temp
    &&& s.cleanup_temp_files
    &&& !s.overwrite_existing
    &&& !s.embed_thumbnail
    &&& !s.download_subtitles
    &&& s.subtitle_language@ == "en"@
    &&& s.shortcut_download@ == "d"@
    &&& string_views(s.filter_list_urls@) == default_filter_urls()
    &&& s.filter_last_success is None
    &&& s.filter_etags@.len() == 0
    &&& s.ytdlp_last_update is None
    &&& s.log_level@ == "INFO"@
}

impl Settings {
    /// Fresh settings that download into `download_directory` and stage files
    /// in `temp_directory`.
    pub fn with_directories(download_directory: String, temp_directory: String) -> (r: Settings)
        ensures
            is_default_settings(r, download_directory@, temp_directory@),
    {
        Settings {
            schema_version: CURRENT_SCHEMA,
            appearance: Appearance::System,
            tracking_protection: false,
            aggressive_tracking_protection: false,
            max_concurrent_downloads: 2,
            download_directory,
            temp_directory,
            cleanup_temp_files: true,
            overwrite_existing: false,
            embed_thumbnail: false,
            download_subtitles: false,
            subtitle_language: String::from_str("en"),
            shortcut_download: String::from_str("d"),
            filter_list_urls: default_filter_list_urls(),
            filter_last_success: None,
            filter_etags: Vec::new(),
            ytdlp_last_update: None,
            log_level: String::from_str("INFO"),
        }
    }
}

impl Default for Settings {
    /// Fresh settings: downloads under the user's data folder, temporary files
    /// under the user's cache folder (relative fallbacks where the platform
    /// has none).
    fn default() -> (r: Settings)
        ensures
            exists|d: Option<(String, String, String)>|
                is_default_settings(r, default_dirs(d).0, default_dirs(d).1),
    {
        let d = project_dirs("com", "PlayRood", "Yood");
        let (download, temp) = match &d {
            Some(dirs) => (join_path(dirs.0.as_str(), "downloads"), join_path(dirs.1.as_str(), "tmp")),
            None => (String::from_str("downloads"), String::from_str(".yood-tmp")),
        };
        let r = Settings::with_directories(download, temp);
        assert(is_default_settings(r, default_dirs(d).0, default_dirs(d).1));
        r
    }
}

/// Where the settings file lives: `settings.json` in the platform's
/// configuration folder for the application.
pub fn config_path() -> (r: Result<String, AppError>)
    ensures
        r matches Err(e) ==> e@ == (
            AppErrorKind::Configuration,
            "could not determine the platform configuration directory"@,
        ),
        r matches Ok(p) ==> exists|config: Seq<char>| p@ == join(config, "settings.json"@),
{
    match project_dirs("com", "PlayRood", "Yood") {
        Some(dirs) => Ok(join_path(dirs.2.as_str(), "settings.json")),
        None => Err(
            AppError::Configuration(
                String::from_str("could not determine the platform configuration directory"),
            ),
        ),
    }
}

/// What is wrong with a folder setting, if anything.
pub open spec fn directory_problem(p: Seq<char>, label: Seq<char>) -> Option<(AppErrorKind, Seq<char>)> {
    if !is_absolute(p) {
        Some((AppErrorKind::InvalidInput, label + " folder must be an absolute path"@))
    } else if has_parent_dir(p) {
        Some((AppErrorKind::UnsafePath, label + " folder contains a parent traversal"@))
    } else if normal_parts(p).len() == 0 {
        Some((AppErrorKind::InvalidInput, "invalid "@ + label + " folder"@))
    } else {
        None
    }
}

pub open spec fn is_log_level(l: Seq<char>) -> bool {
    l == "ERROR"@ || l == "WARN"@ || l == "INFO"@ || l == "DEBUG"@ || l == "TRACE"@
}

/// What [`validate`] decides about settings.
pub open spec fn spec_validate(s: Settings) -> Result<(), (AppErrorKind, Seq<char>)> {
    if !(1 <= s.max_concurrent_downloads && s.max_concurrent_downloads <= 4) {
        Err((AppErrorKind::InvalidInput, "concurrent downloads must be between 1 and 4"@))
    } else if directory_problem(s.download_directory@, "download"@) is Some {
        Err(directory_problem(s.download_directory@, "download"@)->0)
    } else if directory_problem(s.temp_directory@, "temporary"@) is Some {
        Err(directory_problem(s.temp_directory@, "temporary"@)->0)
    } else if same_path(s.download_directory@, s.temp_directory@) {
        Err((AppErrorKind::InvalidInput, "download and temporary folders must be different"@))
    } else if byte_len(s.subtitle_language@) > 32 || has_control(s.subtitle_language@) {
        Err((AppErrorKind::InvalidInput, "invalid subtitle language"@))
    } else if !is_log_level(s.log_level@) {
        Err((AppErrorKind::InvalidInput, "invalid log level"@))
    } else if s.shortcut_download@.len() != 1 || !is_ascii_alphanumeric(s.shortcut_download@[0]) {
        Err(
            (
                AppErrorKind::InvalidInput,
                "download shortcut must be a single letter or digit"@,
            ),
        )
    } else {
        Ok(())
    }
}

pub open spec fn unit_view(r: Result<(), AppError>) -> Result<(), (AppErrorKind, Seq<char>)> {
    match r {
        Ok(()) => Ok(()),
        Err(e) => Err(e@),
    }
}

fn labelled(prefix: &str, label: &str, suffix: &str) -> (r: String)
    ensures
        r@ == prefix@ + label@ + suffix@,
{
    let mut r = String::from_str(prefix);
    r.append(label);
    r.append(suffix);
    r
}

fn label_then(label: &str, suffix: &str) -> (r: String)
    ensures
        r@ == label@ + suffix@,
{
    let mut r = String::from_str(label);
    r.append(suffix);
    r
}

/// Checks a folder setting: it must be absolute, must not climb with `..`,
/// and must name a folder below the file-system root.
pub fn validate_directory(path: &str, label: &str) -> (r: Result<(), AppError>)
    ensures
        match directory_problem(path@, label@) {
            Some(e) => r matches Err(x) && x@ == e,
            None => r is Ok,
        },
{
    let p = str_chars(path);
    if !path_is_absolute(&p) {
        return Err(AppError::InvalidInput(label_then(label, " folder must be an absolute path")));
    }
    let parts = path_parts(&p);
    if contains_parent_dir(&parts) {
        return Err(AppError::UnsafePath(label_then(label, " folder contains a parent traversal")));
    }
    if parts.len() == 0 {
        return Err(AppError::InvalidInput(labelled("invalid ", label, " folder")));
    }
    Ok(())
}

fn is_known_level(l: &String) -> (r: bool)
    ensures
        r == is_log_level(l@),
{
    let v = str_chars(l.as_str());
    chars_eq(&v, &str_chars("ERROR")) || chars_eq(&v, &str_chars("WARN")) || chars_eq(
        &v,
        &str_chars("INFO"),
    ) || chars_eq(&v, &str_chars("DEBUG")) || chars_eq(&v, &str_chars("TRACE"))
}

/// Checks settings before they are used or stored.
pub fn validate(settings: &Settings) -> (r: Result<(), AppError>)
    ensures
        unit_view(r) == spec_validate(*settings),
{
    if !(1 <= settings.max_concurrent_downloads && settings.max_concurrent_downloads <= 4) {
        return Err(
            AppError::InvalidInput(String::from_str("concurrent downloads must be between 1 and 4")),
        );
    }
    match validate_directory(settings.download_directory.as_str(), "download") {
        Ok(()) => {},
        Err(e) => {
            return Err(e);
        },
    }
    match validate_directory(settings.temp_directory.as_str(), "temporary") {
        Ok(()) => {},
        Err(e) => {
            return Err(e);
        },
    }
    let a = str_chars(settings.download_directory.as_str());
    let b = str_chars(settings.temp_directory.as_str());
    if path_is_absolute(&a) == path_is_absolute(&b) && parts_eq(&path_parts(&a), &path_parts(&b)) {
        return Err(
            AppError::InvalidInput(
                String::from_str("download and temporary folders must be different"),
            ),
        );
    }
    let language = str_chars(settings.subtitle_language.as_str());
    if utf8_byte_len(&language) > 32 || any_control(&language) {
        return Err(AppError::InvalidInput(String::from_str("invalid subtitle language")));
    }
    if !is_known_level(&settings.log_level) {
        return Err(AppError::InvalidInput(String::from_str("invalid log level")));
    }
    let shortcut = str_chars(settings.shortcut_download.as_str());
    if shortcut.len() != 1 || !char_is_ascii_alphanumeric(shortcut[0]) {
        return Err(
            AppError::InvalidInput(
                String::from_str("download shortcut must be a single letter or digit"),
            ),
        );
    }
    Ok(())
}

/// The URL list after every missing default was appended, in default order.
pub open spec fn backfill(urls: Seq<Seq<char>>, defaults: Seq<Seq<char>>) -> Seq<Seq<char>>
    decreases defaults.len(),
{
    if defaults.len() == 0 {
        urls
    } else {
        let u = backfill(urls, defaults.drop_last());
        if u.contains(defaults.last()) {
            u
        } else {
            u.push(defaults.last())
        }
    }
}

fn list_contains(v: &Vec<String>, s: &String) -> (r: bool)
    ensures
        r == string_views(v@).contains(s@),
{
    let target = str_chars(s.as_str());
    let mut i: usize = 0;
    while i < v.len()
        invariant
            i <= v@.len(),
            target@ == s@,
            forall|j: int| 0 <= j < i ==> v@[j]@ != s@,
        decreases v@.len() - i,
    {
        if chars_eq(&str_chars(v[i].as_str()), &target) {
            assert(string_views(v@)[i as int] == s@);
            return true;
        }
        i = i + 1;
    }
    assert forall|j: int| 0 <= j < string_views(v@).len() implies string_views(v@)[j] != s@ by {
        assert(string_views(v@)[j] == v@[j]@);
    }
    false
}

/// `after` is `before` at the current schema, with its own filter list URLs.
pub open spec fn only_urls_and_schema_changed(before: Settings, after: Settings) -> bool {
    after == Settings {
        schema_version: CURRENT_SCHEMA,
        filter_list_urls: after.filter_list_urls,
        ..before
    }
}

/// Brings settings read from an older version up to the current schema: an
/// unversioned file counts as current, a newer schema is refused, and default
/// filter lists missing from the subscription list are appended.
pub fn migrate(settings: &mut Settings) -> (r: Result<(), AppError>)
    ensures
        old(settings).schema_version > CURRENT_SCHEMA ==> (r matches Err(e) && e@ == (
            AppErrorKind::Configuration,
            "settings schema "@ + decimal(old(settings).schema_version as nat)
                + " is newer than this application"@,
        ) && *final(settings) == *old(settings)),
        old(settings).schema_version <= CURRENT_SCHEMA ==> r is Ok && only_urls_and_schema_changed(
            *old(settings),
            *final(settings),
        ) && string_views(final(settings).filter_list_urls@) == backfill(
            string_views(old(settings).filter_list_urls@),
            default_filter_urls(),
        ),
{
    if settings.schema_version == 0 {
        settings.schema_version = CURRENT_SCHEMA;
    }
    if settings.schema_version > CURRENT_SCHEMA {
        let digits = u64_decimal(settings.schema_version as u64);
        let mut message = String::from_str("settings schema ");
        message.append(chars_string(&digits).as_str());
        message.append(" is newer than this application");
        return Err(AppError::Configuration(message));
    }
    settings.schema_version = CURRENT_SCHEMA;
    let defaults = default_filter_list_urls();
    let mut i: usize = 0;
    let ghost start = string_views(settings.filter_list_urls@);
    assert(default_filter_urls().take(0) =~= Seq::<Seq<char>>::empty());
    while i < defaults.len()
        invariant
            i <= defaults@.len(),
            string_views(defaults@) == default_filter_urls(),
            string_views(settings.filter_list_urls@) == backfill(
                start,
                default_filter_urls().take(i as int),
            ),
            settings.schema_version == CURRENT_SCHEMA,
            only_urls_and_schema_changed(*old(settings), *settings),
        decreases defaults@.len() - i,
    {
        proof {
            assert(default_filter_urls().take(i + 1).drop_last() =~= default_filter_urls().take(
                i as int,
            ));
            assert(default_filter_urls().take(i + 1).last() == defaults@[i as int]@);
        }
        if !list_contains(&settings.filter_list_urls, &defaults[i]) {
            let ghost before = settings.filter_list_urls@;
            settings.filter_list_urls.push(defaults[i].clone());
            assert(string_views(settings.filter_list_urls@) =~= string_views(before).push(
                defaults@[i as int]@,
            ));
        }
        i = i + 1;
    }
    assert(default_filter_urls().take(8) =~= default_filter_urls());
    settings.schema_version = CURRENT_SCHEMA;
    Ok(())
}

/// The settings a patch leaves: every field the patch carries is replaced.
pub open spec fn patched(s: Settings, p: SettingsPatch) -> Settings {
    Settings {
        appearance: match p.appearance {
            Some(v) => v,
            None => s.appearance,
        },
        tracking_protection: match p.tracking_protection {
            Some(v) => v,
            None => s.tracking_protection,
        },
        aggressive_tracking_protection: match p.aggressive_tracking_protection {
            Some(v) => v,
            None => s.aggressive_tracking_protection,
        },
        max_concurrent_downloads: match p.max_concurrent_downloads {
            Some(v) => v,
            None => s.max_concurrent_downloads,
        },
        download_directory: match p.download_directory {
            Some(v) => v,
            None => s.download_directory,
        },
        temp_directory: match p.temp_directory {
            Some(v) => v,
            None => s.temp_directory,
        },
        cleanup_temp_files: match p.cleanup_temp_files {
            Some(v) => v,
            None => s.cleanup_temp_files,
        },
        overwrite_existing: match p.overwrite_existing {
            Some(v) => v,
            None => s.overwrite_existing,
        },
        embed_thumbnail: match p.embed_thumbnail {
            Some(v) => v,
            None => s.embed_thumbnail,
        },
        download_subtitles: match p.download_subtitles {
            Some(v) => v,
            None => s.download_subtitles,
        },
        subtitle_language: match p.subtitle_language {
            Some(v) => v,
            None => s.subtitle_language,
        },
        log_level: match p.log_level {
            Some(v) => v,
            None => s.log_level,
        },
        shortcut_download: match p.shortcut_download {
            Some(v) => v,
            None => s.shortcut_download,
        },
        ..s
    }
}

/// Applies a patch and checks the result. The settings keep the patched
/// values even when the check fails; the caller stores them only on success.
pub fn apply_patch(settings: &mut Settings, patch: SettingsPatch) -> (r: Result<(), AppError>)
    ensures
        *final(settings) == patched(*old(settings), patch),
        unit_view(r) == spec_validate(patched(*old(settings), patch)),
{
    settings.appearance = pick(settings.appearance, patch.appearance);
    settings.tracking_protection = pick(settings.tracking_protection, patch.tracking_protection);
    settings.aggressive_tracking_protection = pick(
        settings.aggressive_tracking_protection,
        patch.aggressive_tracking_protection,
    );
    settings.max_concurrent_downloads = pick(
        settings.max_concurrent_downloads,
        patch.max_concurrent_downloads,
    );
    settings.download_directory = pick_text(&settings.download_directory, patch.download_directory);
    settings.temp_directory = pick_text(&settings.temp_directory, patch.temp_directory);
    settings.cleanup_temp_files = pick(settings.cleanup_temp_files, patch.cleanup_temp_files);
    settings.overwrite_existing = pick(settings.overwrite_existing, patch.overwrite_existing);
    settings.embed_thumbnail = pick(settings.embed_thumbnail, patch.embed_thumbnail);
    settings.download_subtitles = pick(settings.download_subtitles, patch.download_subtitles);
    settings.subtitle_language = pick_text(&settings.subtitle_language, patch.subtitle_language);
    settings.log_level = pick_text(&settings.log_level, patch.log_level);
    settings.shortcut_download = pick_text(&settings.shortcut_download, patch.shortcut_download);
    validate(settings)
}

fn pick<T: Copy>(current: T, new: Option<T>) -> (r: T)
    ensures
        r == match new {
            Some(v) => v,
            None => current,
        },
{
    match new {
        Some(v) => v,
        None => current,
    }
}

fn pick_text(current: &String, new: Option<String>) -> (r: String)
    ensures
        r == match new {
            Some(v) => v,
            None => *current,
        },
{
    match new {
        Some(v) => v,
        None => current.clone(),
    }
}

/// `(key, value)` views of entity-tag pairs.
pub open spec fn etag_views(v: Seq<(String, String)>) -> Seq<(Seq<char>, Seq<char>)> {
    v.map_values(|p: (String, String)| (p.0@, p.1@))
}

/// The position of the first entry with key `k`, or -1.
pub open spec fn key_index(s: Seq<(Seq<char>, Seq<char>)>, k: Seq<char>) -> int
    decreases s.len(),
{
    if s.len() == 0 {
        -1
    } else if s[0].0 == k {
        0
    } else {
        let j = key_index(s.drop_first(), k);
        if j < 0 {
            -1
        } else {
            j + 1
        }
    }
}

/// A map entry set: an existing key keeps its place and takes the new value,
/// a new key is appended.
pub open spec fn put(s: Seq<(Seq<char>, Seq<char>)>, kv: (Seq<char>, Seq<char>)) -> Seq<(Seq<char>, Seq<char>)> {
    let i = key_index(s, kv.0);
    if i >= 0 {
        s.update(i, kv)
    } else {
        s.push(kv)
    }
}

/// The entries after each new pair was set in order, as `BTreeMap::extend` does.
pub open spec fn extend_entries(s: Seq<(Seq<char>, Seq<char>)>, new: Seq<(Seq<char>, Seq<char>)>) -> Seq<(Seq<char>, Seq<char>)>
    decreases new.len(),
{
    if new.len() == 0 {
        s
    } else {
        put(extend_entries(s, new.drop_last()), new.last())
    }
}

pub proof fn lemma_key_index(s: Seq<(Seq<char>, Seq<char>)>, k: Seq<char>, i: int)
    requires
        0 <= i <= s.len(),
        forall|j: int| 0 <= j < i ==> (#[trigger] s[j]).0 != k,
        i < s.len() ==> s[i].0 == k,
    ensures
        key_index(s, k) == if i < s.len() {
            i
        } else {
            -1
        },
    decreases s.len(),
{
    if s.len() > 0 && i > 0 {
        let t = s.drop_first();
        assert forall|j: int| 0 <= j < i - 1 implies (#[trigger] t[j]).0 != k by {
            assert(t[j] == s[j + 1]);
        }
        lemma_key_index(t, k, i - 1);
        assert(s[0].0 != k);
    }
}

/// The time of the last successful filter refresh and the entity tags the
/// servers sent, set at `now`.
pub fn mark_filter_success_at(
    settings: &mut Settings,
    etags: Vec<(String, String)>,
    now: Timestamp,
)
    ensures
        *final(settings) == (Settings {
            filter_last_success: Some(now),
            filter_etags: final(settings).filter_etags,
            ..*old(settings)
        }),
        etag_views(final(settings).filter_etags@) == extend_entries(
            etag_views(old(settings).filter_etags@),
            etag_views(etags@),
        ),
{
    settings.filter_last_success = Some(now);
    let mut n: usize = 0;
    let ghost start = etag_views(settings.filter_etags@);
    let ghost new = etag_views(etags@);
    assert(new.take(0) =~= Seq::<(Seq<char>, Seq<char>)>::empty());
    while n < etags.len()
        invariant
            n <= etags@.len(),
            new == etag_views(etags@),
            etag_views(settings.filter_etags@) == extend_entries(start, new.take(n as int)),
            *settings == (Settings {
                filter_last_success: Some(now),
                filter_etags: settings.filter_etags,
                ..*old(settings)
            }),
        decreases etags@.len() - n,
    {
        let key = str_chars(etags[n].0.as_str());
        let ghost cur = etag_views(settings.filter_etags@);
        proof {
            assert(new.take(n + 1).drop_last() =~= new.take(n as int));
            assert(new.take(n + 1).last() == new[n as int]);
        }
        let mut i: usize = 0;
        while i < settings.filter_etags.len() && !chars_eq(
            &str_chars(settings.filter_etags[i].0.as_str()),
            &key,
        )
            invariant
                i <= settings.filter_etags@.len(),
                cur == etag_views(settings.filter_etags@),
                key@ == new[n as int].0,
                forall|j: int| 0 <= j < i ==> (#[trigger] cur[j]).0 != key@,
            decreases settings.filter_etags@.len() - i,
        {
            i = i + 1;
        }
        proof {
            lemma_key_index(cur, key@, i as int);
        }
        let pair = (etags[n].0.clone(), etags[n].1.clone());
        if i < settings.filter_etags.len() {
            settings.filter_etags.set(i, pair);
            assert(etag_views(settings.filter_etags@) =~= cur.update(i as int, new[n as int]));
        } else {
            settings.filter_etags.push(pair);
            assert(etag_views(settings.filter_etags@) =~= cur.push(new[n as int]));
        }
        n = n + 1;
    }
    assert(new.take(etags@.len() as int) =~= new);
}

/// [`mark_filter_success_at`] at the current time.
pub fn mark_filter_success(settings: &mut Settings, etags: Vec<(String, String)>)
    ensures
        *final(settings) == (Settings {
            filter_last_success: final(settings).filter_last_success,
            filter_etags: final(settings).filter_etags,
            ..*old(settings)
        }),
        final(settings).filter_last_success is Some,
        etag_views(final(settings).filter_etags@) == extend_entries(
            etag_views(old(settings).filter_etags@),
            etag_views(etags@),
        ),
{
    let now = crate::queue::now_timestamp();
    mark_filter_success_at(settings, etags, now);
}

/// A patch that carries no field.
pub open spec fn is_empty_patch(p: SettingsPatch) -> bool {
    &&& p.appearance is None
    &&& p.tracking_protection is None
    &&& p.aggressive_tracking_protection is None
    &&& p.max_concurrent_downloads is None
    &&& p.download_directory is None
    &&& p.temp_directory is None
    &&& p.cleanup_temp_files is None
    &&& p.overwrite_existing is None
    &&& p.embed_thumbnail is None
    &&& p.download_subtitles is None
    &&& p.subtitle_language is None
    &&& p.log_level is None
    &&& p.shortcut_download is None
}

/// A patch that carries nothing leaves the settings as they were.
pub proof fn empty_patch_changes_nothing(s: Settings, p: SettingsPatch)
    requires
        is_empty_patch(p),
    ensures
        patched(s, p) == s,
{
}

/// Applying the same patch twice gives what applying it once gives.
pub proof fn patch_is_idempotent(s: Settings, p: SettingsPatch)
    ensures
        patched(patched(s, p), p) == patched(s, p),
{
}

proof fn lemma_backfill_keeps_and_adds(urls: Seq<Seq<char>>, defaults: Seq<Seq<char>>)
    ensures
        backfill(urls, defaults).len() >= urls.len(),
        backfill(urls, defaults).subrange(0, urls.len() as int) == urls,
        forall|k: int| 0 <= k < defaults.len() ==> backfill(urls, defaults).contains(#[trigger] defaults[k]),
        forall|x: Seq<char>| urls.contains(x) ==> #[trigger] backfill(urls, defaults).contains(x),
    decreases defaults.len(),
{
    if defaults.len() > 0 {
        let d = defaults.drop_last();
        lemma_backfill_keeps_and_adds(urls, d);
        let u = backfill(urls, d);
        if !u.contains(defaults.last()) {
            let v = u.push(defaults.last());
            assert(v.subrange(0, urls.len() as int) =~= u.subrange(0, urls.len() as int));
            assert forall|x: Seq<char>| u.contains(x) implies v.contains(x) by {
                let i = choose|i: int| 0 <= i < u.len() && u[i] == x;
                assert(v[i] == x);
            }
            assert(v[v.len() - 1] == defaults.last());
        }
        assert forall|k: int| 0 <= k < defaults.len() implies backfill(urls, defaults).contains(
            #[trigger] defaults[k],
        ) by {
            if k < defaults.len() - 1 {
                assert(d[k] == defaults[k]);
                assert(u.contains(d[k]));
            }
        }
    }
}

proof fn lemma_backfill_noop(urls: Seq<Seq<char>>, defaults: Seq<Seq<char>>)
    requires
        forall|k: int| 0 <= k < defaults.len() ==> urls.contains(#[trigger] defaults[k]),
    ensures
        backfill(urls, defaults) == urls,
    decreases defaults.len(),
{
    if defaults.len() > 0 {
        let d = defaults.drop_last();
        assert forall|k: int| 0 <= k < d.len() implies urls.contains(#[trigger] d[k]) by {
            assert(d[k] == defaults[k]);
        }
        lemma_backfill_noop(urls, d);
        assert(urls.contains(defaults[defaults.len() - 1]));
    }
}

/// Migrating keeps every subscription the user had, in its place, adds every
/// default list, and migrating again changes nothing more.
pub proof fn migration_keeps_user_lists_and_is_idempotent(urls: Seq<Seq<char>>)
    ensures
        backfill(urls, default_filter_urls()).subrange(0, urls.len() as int) == urls,
        forall|k: int|
            0 <= k < default_filter_urls().len() ==> backfill(urls, default_filter_urls()).contains(
                #[trigger] default_filter_urls()[k],
            ),
        backfill(backfill(urls, default_filter_urls()), default_filter_urls()) == backfill(
            urls,
            default_filter_urls(),
        ),
{
    lemma_backfill_keeps_and_adds(urls, default_filter_urls());
    lemma_backfill_noop(backfill(urls, default_filter_urls()), default_filter_urls());
}

/// Appending the missing entries of a list keeps every existing line in its
/// place, adds every missing entry, and a second pass adds nothing: the rule
/// behind both filter-list migration and the seeding of Brave's custom filters.
pub proof fn backfill_keeps_adds_and_settles(lines: Seq<Seq<char>>, wanted: Seq<Seq<char>>)
    ensures
        backfill(lines, wanted).subrange(0, lines.len() as int) == lines,
        forall|k: int| 0 <= k < wanted.len() ==> backfill(lines, wanted).contains(#[trigger] wanted[k]),
        backfill(backfill(lines, wanted), wanted) == backfill(lines, wanted),
        (forall|k: int| 0 <= k < wanted.len() ==> lines.contains(#[trigger] wanted[k])) ==> backfill(
            lines,
            wanted,
        ) == lines,
{
    lemma_backfill_keeps_and_adds(lines, wanted);
    lemma_backfill_noop(backfill(lines, wanted), wanted);
    if forall|k: int| 0 <= k < wanted.len() ==> lines.contains(#[trigger] wanted[k]) {
        lemma_backfill_noop(lines, wanted);
    }
}


/// A patch sets every setting it carries to the carried value and leaves
/// every other setting, the schema version and the filter lists, as they were.
pub proof fn patch_sets_what_it_carries(s: Settings, p: SettingsPatch)
    ensures
        ({
            let t = patched(s, p);
            &&& t.schema_version == s.schema_version
            &&& t.filter_list_urls == s.filter_list_urls
            &&& (p.appearance matches Some(v) ==> t.appearance == v)
            &&& (p.appearance is None ==> t.appearance == s.appearance)
            &&& (p.tracking_protection matches Some(v) ==> t.tracking_protection == v)
            &&& (p.tracking_protection is None ==> t.tracking_protection == s.tracking_protection)
            &&& (p.aggressive_tracking_protection matches Some(v) ==> t.aggressive_tracking_protection == v)
            &&& (p.aggressive_tracking_protection is None ==> t.aggressive_tracking_protection
                == s.aggressive_tracking_protection)
            &&& (p.max_concurrent_downloads matches Some(v) ==> t.max_concurrent_downloads == v)
            &&& (p.max_concurrent_downloads is None ==> t.max_concurrent_downloads
                == s.max_concurrent_downloads)
            &&& (p.download_directory matches Some(v) ==> t.download_directory == v)
            &&& (p.download_directory is None ==> t.download_directory == s.download_directory)
            &&& (p.temp_directory matches Some(v) ==> t.temp_directory == v)
            &&& (p.temp_directory is None ==> t.temp_directory == s.temp_directory)
            &&& (p.cleanup_temp_files matches Some(v) ==> t.cleanup_temp_files == v)
            &&& (p.cleanup_temp_files is None ==> t.cleanup_temp_files == s.cleanup_temp_files)
            &&& (p.overwrite_existing matches Some(v) ==> t.overwrite_existing == v)
            &&& (p.overwrite_existing is None ==> t.overwrite_existing == s.overwrite_existing)
            &&& (p.embed_thumbnail matches Some(v) ==> t.embed_thumbnail == v)
            &&& (p.embed_thumbnail is None ==> t.embed_thumbnail == s.embed_thumbnail)
            &&& (p.download_subtitles matches Some(v) ==> t.download_subtitles == v)
            &&& (p.download_subtitles is None ==> t.download_subtitles == s.download_subtitles)
            &&& (p.subtitle_language matches Some(v) ==> t.subtitle_language == v)
            &&& (p.subtitle_language is None ==> t.subtitle_language == s.subtitle_language)
            &&& (p.log_level matches Some(v) ==> t.log_level == v)
            &&& (p.log_level is None ==> t.log_level == s.log_level)
            &&& (p.shortcut_download matches Some(v) ==> t.shortcut_download == v)
            &&& (p.shortcut_download is None ==> t.shortcut_download == s.shortcut_download)
        }),
{
}

} // verus!
