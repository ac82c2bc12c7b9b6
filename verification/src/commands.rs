//! The checks the frontend's commands make before acting: page and request
//! URLs handed to the filter, DOM tokens, player titles, external links,
//! paths of downloaded files, and the system theme read from the desktop.
use vstd::prelude::*;
use crate::error::{AppError, AppErrorKind};
use crate::filtering::{spec_check_request, FilterManager};
use crate::paths::{has_parent_dir, is_absolute, normal_parts};
use crate::queue::{first_queued, has_id, index_of, DownloadQueue};
use crate::models::{DownloadItem, DownloadStatus};
use crate::text::{
    any_char, any_control, at_most, byte_len, char_is_control, chars_eq, chars_string, contains,
    has_char, has_control, lower, str_chars, string_views, to_ascii_lowercase, trim, trim_chars,
    utf8_byte_len, vec_contains, views,
};
use crate::urls::{opt_view, parse_url, url_parse};

verus! {

/// A class or id name that may be matched against cosmetic rules: not
/// empty, at most 256 bytes, no control characters, braces or semicolons.
pub open spec fn safe_dom_token(v: Seq<char>) -> bool {
    &&& v.len() > 0
    &&& byte_len(v) <= 256
    &&& !has_control(v)
    &&& !has_char(v, '{')
    &&& !has_char(v, '}')
    &&& !has_char(v, ';')
}

pub fn is_safe_dom_token(value: &str) -> (r: bool)
    ensures
        r == safe_dom_token(value@),
{
    let v = str_chars(value);
    v.len() > 0 && utf8_byte_len(&v) <= 256 && !any_control(&v) && !any_char(&v, '{')
        && !any_char(&v, '}') && !any_char(&v, ';')
}

pub open spec fn token_pred() -> spec_fn(Seq<char>) -> bool {
    |t: Seq<char>| safe_dom_token(t)
}

pub open spec fn first_n(s: Seq<Seq<char>>, n: nat) -> Seq<Seq<char>> {
    if s.len() <= n {
        s
    } else {
        s.take(n as int)
    }
}

/// The first 2500 safe tokens, in order.
pub fn safe_dom_tokens(values: &Vec<String>) -> (r: Vec<String>)
    ensures
        string_views(r@) == first_n(string_views(values@).filter(token_pred()), 2500),
{
    let ghost all = string_views(values@);
    let mut kept: Vec<String> = Vec::new();
    let mut i: usize = 0;
    assert(all.take(0) =~= Seq::<Seq<char>>::empty());
    assert(all.take(0).filter(token_pred()) =~= Seq::<Seq<char>>::empty()) by {
        reveal(Seq::filter);
    }
    while i < values.len() && kept.len() < 2500
        invariant
            i <= values@.len(),
            all == string_views(values@),
            kept@.len() <= 2500,
            string_views(kept@) == all.take(i as int).filter(token_pred()),
        decreases values@.len() - i,
    {
        let safe = is_safe_dom_token(values[i].as_str());
        proof {
            assert(all.take(i + 1) =~= all.take(i as int).push(all[i as int]));
            all.take(i as int).lemma_filter_push(all[i as int], token_pred());
        }
        if safe {
            let ghost before = kept@;
            kept.push(values[i].clone());
            assert(string_views(kept@) =~= string_views(before).push(values@[i as int]@));
        }
        i = i + 1;
    }
    proof {
        lemma_filter_prefix(all, i as int);
        if kept@.len() < 2500 {
            assert(all.take(i as int) =~= all);
        }
        assert(string_views(kept@) =~= first_n(all.filter(token_pred()), 2500));
    }
    kept
}

proof fn lemma_filter_prefix(all: Seq<Seq<char>>, i: int)
    requires
        0 <= i <= all.len(),
    ensures
        all.take(i).filter(token_pred()).len() <= all.filter(token_pred()).len(),
        all.take(i).filter(token_pred()) == all.filter(token_pred()).take(
            all.take(i).filter(token_pred()).len() as int,
        ),
    decreases all.len() - i,
{
    if i < all.len() {
        lemma_filter_prefix(all, i + 1);
        assert(all.take(i + 1) =~= all.take(i).push(all[i]));
        all.take(i).lemma_filter_push(all[i], token_pred());
        let a = all.take(i).filter(token_pred());
        let b = all.take(i + 1).filter(token_pred());
        assert(a =~= b.take(a.len() as int));
    } else {
        assert(all.take(i) =~= all);
    }
}

/// A page URL the cosmetic rules may be computed for: HTTP(S) with a host,
/// at most 16 KiB.
pub open spec fn valid_filter_page(page_url: Seq<char>) -> bool {
    url_parse(page_url) matches Some(u) && (u.scheme == "http"@ || u.scheme == "https"@) && u.host
        is Some && byte_len(page_url) <= 16384
}

pub fn check_filter_page_url(page_url: &str) -> (r: Result<(), AppError>)
    ensures
        match r {
            Ok(()) => valid_filter_page(page_url@),
            Err(e) => !valid_filter_page(page_url@) && e@ == (
                AppErrorKind::InvalidInput,
                "invalid filter page URL"@,
            ),
        },
{
    let parsed = match parse_url(page_url) {
        Some(u) => u,
        None => return Err(AppError::InvalidInput(String::from_str("invalid filter page URL"))),
    };
    let scheme = str_chars(parsed.scheme.as_str());
    if !(chars_eq(&scheme, &str_chars("http")) || chars_eq(&scheme, &str_chars("https")))
        || parsed.host.is_none() || utf8_byte_len(&str_chars(page_url)) > 16384 {
        return Err(AppError::InvalidInput(String::from_str("invalid filter page URL")));
    }
    Ok(())
}

/// A request the page asks about is looked at only when its texts are short
/// and clean and its URL is HTTP(S) or WS(S) with a host.
pub open spec fn request_worth_checking(
    url: Seq<char>,
    source_url: Seq<char>,
    request_type: Seq<char>,
) -> bool {
    &&& byte_len(url) <= 16384
    &&& byte_len(source_url) <= 16384
    &&& byte_len(request_type) <= 32
    &&& !has_control(url)
    &&& !has_control(source_url)
    &&& url_parse(url) matches Some(u) && (u.scheme == "http"@ || u.scheme == "https"@ || u.scheme
        == "ws"@ || u.scheme == "wss"@) && u.host is Some
}

/// Whether the page must drop a request.
pub fn check_filter_request_sync(
    filters: &FilterManager,
    url: &str,
    source_url: &str,
    request_type: &str,
) -> (r: bool)
    ensures
        r == (request_worth_checking(url@, source_url@, request_type@) && spec_check_request(
            filters.lists(),
            url@,
            source_url@,
            request_type@,
        )),
{
    let u = str_chars(url);
    let s = str_chars(source_url);
    if utf8_byte_len(&u) > 16384 || utf8_byte_len(&s) > 16384 || utf8_byte_len(
        &str_chars(request_type),
    ) > 32 || any_control(&u) || any_control(&s) {
        return false;
    }
    let parsed = match parse_url(url) {
        Some(p) => p,
        None => return false,
    };
    let scheme = str_chars(parsed.scheme.as_str());
    if !(chars_eq(&scheme, &str_chars("http")) || chars_eq(&scheme, &str_chars("https"))
        || chars_eq(&scheme, &str_chars("ws")) || chars_eq(&scheme, &str_chars("wss"))) {
        return false;
    }
    if parsed.host.is_none() {
        return false;
    }
    filters.check_network_request(url, source_url, request_type)
}

/// The title a player window shows: the text without control characters, at
/// most 512 characters, or "Yood Native Player" where that leaves only blanks.
pub open spec fn spec_player_title(title: Seq<char>) -> Seq<char> {
    let t = at_most(title.filter(|c: char| !crate::text::is_control(c)), 512);
    if trim(t).len() == 0 {
        "Yood Native Player"@
    } else {
        t
    }
}

pub fn player_title(title: &str) -> (r: String)
    ensures
        r@ == spec_player_title(title@),
{
    let chars = str_chars(title);
    let ghost p = |c: char| !crate::text::is_control(c);
    let mut kept: Vec<char> = Vec::new();
    let mut i: usize = 0;
    assert(chars@.take(0).filter(p) =~= Seq::<char>::empty()) by {
        reveal(Seq::filter);
    }
    while i < chars.len()
        invariant
            i <= chars@.len(),
            p == |c: char| !crate::text::is_control(c),
            kept@ == chars@.take(i as int).filter(p),
        decreases chars@.len() - i,
    {
        proof {
            assert(chars@.take(i + 1) =~= chars@.take(i as int).push(chars@[i as int]));
            chars@.take(i as int).lemma_filter_push(chars@[i as int], p);
        }
        if !char_is_control(chars[i]) {
            kept.push(chars[i]);
        }
        i = i + 1;
    }
    assert(chars@.take(chars@.len() as int) =~= chars@);
    let t = crate::text::at_most_chars(&kept, 512);
    if trim_chars(&t).len() == 0 {
        String::from_str("Yood Native Player")
    } else {
        chars_string(&t)
    }
}

/// A title handed in for a streamed video: at most 2048 bytes, no control characters.
pub fn check_player_title(title: &str) -> (r: Result<(), AppError>)
    ensures
        match r {
            Ok(()) => byte_len(title@) <= 2048 && !has_control(title@),
            Err(e) => !(byte_len(title@) <= 2048 && !has_control(title@)) && e@ == (
                AppErrorKind::InvalidInput,
                "invalid player title"@,
            ),
        },
{
    let v = str_chars(title);
    if utf8_byte_len(&v) > 2048 || any_control(&v) {
        Err(AppError::InvalidInput(String::from_str("invalid player title")))
    } else {
        Ok(())
    }
}

/// What opening an external link answers: the parsed URL to hand to the
/// system, only for HTTPS.
pub open spec fn spec_external_link(url: Seq<char>) -> Result<Seq<char>, (AppErrorKind, Seq<char>)> {
    match url_parse(url) {
        None => Err((AppErrorKind::InvalidInput, "invalid external URL"@)),
        Some(u) => if u.scheme != "https"@ {
            Err((AppErrorKind::UnsupportedUrl, "only HTTPS external links are allowed"@))
        } else {
            Ok(u.serialized)
        },
    }
}

pub fn external_link(url: &str) -> (r: Result<String, AppError>)
    ensures
        crate::download::string_result_view(r) == spec_external_link(url@),
{
    let parsed = match parse_url(url) {
        Some(u) => u,
        None => return Err(AppError::InvalidInput(String::from_str("invalid external URL"))),
    };
    if !chars_eq(&str_chars(parsed.scheme.as_str()), &str_chars("https")) {
        return Err(AppError::UnsupportedUrl(String::from_str("only HTTPS external links are allowed")));
    }
    Ok(parsed.serialized)
}

/// The output file of a download, or why there is none to open.
pub open spec fn spec_download_output(
    items: Seq<crate::models::DownloadItem>,
    id: Seq<char>,
    missing: Seq<char>,
) -> Result<Seq<char>, (AppErrorKind, Seq<char>)> {
    if !has_id(items, id) {
        Err((AppErrorKind::NotFound, id))
    } else {
        match items[index_of(items, id)].output_path {
            Some(p) => Ok(p@),
            None => Err((AppErrorKind::NotFound, missing)),
        }
    }
}

pub fn download_output(downloads: &DownloadQueue, id: &str, missing: &str) -> (r: Result<
    String,
    AppError,
>)
    ensures
        crate::download::string_result_view(r) == spec_download_output(downloads@, id@, missing@),
{
    let item = downloads.item(id)?;
    match item.output_path {
        Some(p) => Ok(p),
        None => Err(AppError::NotFound(String::from_str(missing))),
    }
}

/// A path the frontend may name: absolute and without `..`.
pub fn check_user_path(path: &str) -> (r: Result<(), AppError>)
    ensures
        match r {
            Ok(()) => is_absolute(path@) && !has_parent_dir(path@),
            Err(e) => !(is_absolute(path@) && !has_parent_dir(path@)) && e@ == (
                AppErrorKind::UnsafePath,
                path@,
            ),
        },
{
    let chars = str_chars(path);
    let parts = crate::paths::path_parts(&chars);
    if !crate::paths::path_is_absolute(&chars) || crate::paths::contains_parent_dir(&parts) {
        return Err(AppError::UnsafePath(String::from_str(path)));
    }
    Ok(())
}

/// `candidate.starts_with(root)` as `Path` compares: same kind and the
/// root's components leading the candidate's.
pub open spec fn path_starts_with(candidate: Seq<char>, root: Seq<char>) -> bool {
    &&& is_absolute(candidate) == is_absolute(root)
    &&& normal_parts(root).len() <= normal_parts(candidate).len()
    &&& normal_parts(candidate).take(normal_parts(root).len() as int) == normal_parts(root)
}

fn starts_with_path(candidate: &str, root: &str) -> (r: bool)
    ensures
        r == path_starts_with(candidate@, root@),
{
    let c = str_chars(candidate);
    let o = str_chars(root);
    if crate::paths::path_is_absolute(&c) != crate::paths::path_is_absolute(&o) {
        return false;
    }
    let cp = crate::paths::path_parts(&c);
    let rp = crate::paths::path_parts(&o);
    if rp.len() > cp.len() {
        return false;
    }
    let mut i: usize = 0;
    while i < rp.len()
        invariant
            i <= rp@.len(),
            rp@.len() <= cp@.len(),
            views(cp@) == normal_parts(candidate@),
            views(rp@) == normal_parts(root@),
            is_absolute(candidate@) == is_absolute(root@),
            forall|j: int| 0 <= j < i ==> cp@[j]@ == rp@[j]@,
        decreases rp@.len() - i,
    {
        if !chars_eq(&cp[i], &rp[i]) {
            assert(views(cp@)[i as int] == cp@[i as int]@);
            assert(views(rp@)[i as int] == rp@[i as int]@);
            assert(views(cp@).take(rp@.len() as int)[i as int] != views(rp@)[i as int]);
            return false;
        }
        i = i + 1;
    }
    assert(views(cp@).take(rp@.len() as int) =~= views(rp@));
    true
}

/// The resolved path of a file the frontend named, accepted only inside one
/// of the allowed folders (the download and temporary folders).
pub fn check_within_roots(path: &str, candidate: String, roots: &Vec<String>) -> (r: Result<
    String,
    AppError,
>)
    ensures
        match r {
            Ok(c) => c == candidate && exists|i: int|
                0 <= i < roots@.len() && path_starts_with(candidate@, #[trigger] roots@[i]@),
            Err(e) => (forall|i: int|
                0 <= i < roots@.len() ==> !path_starts_with(candidate@, #[trigger] roots@[i]@))
                && e@ == (AppErrorKind::UnsafePath, path@ + " is outside the allowed folders"@),
        },
{
    let mut i: usize = 0;
    while i < roots.len()
        invariant
            i <= roots@.len(),
            forall|j: int| 0 <= j < i ==> !path_starts_with(candidate@, #[trigger] roots@[j]@),
        decreases roots@.len() - i,
    {
        if starts_with_path(candidate.as_str(), roots[i].as_str()) {
            return Ok(candidate);
        }
        i = i + 1;
    }
    let mut m = String::from_str(path);
    m.append(" is outside the allowed folders");
    Err(AppError::UnsafePath(m))
}

/// An output directory is used only when it is a directory and not a symbolic link.
pub fn check_output_dir(path: &str, is_dir: bool, is_symlink: bool) -> (r: Result<(), AppError>)
    ensures
        match r {
            Ok(()) => is_dir && !is_symlink,
            Err(e) => !(is_dir && !is_symlink) && e@ == (
                AppErrorKind::UnsafePath,
                path@ + " is not a safe directory"@,
            ),
        },
{
    if !is_dir || is_symlink {
        let mut m = String::from_str(path);
        m.append(" is not a safe directory");
        return Err(AppError::UnsafePath(m));
    }
    Ok(())
}

/// The theme `gsettings` reports for a key: dark or light where the value
/// says so (in any ASCII case), else undecided.
pub open spec fn spec_gsettings_appearance(output: Seq<char>) -> Option<Seq<char>> {
    let v = lower(output);
    if contains(v, "dark"@) || contains(v, "prefer-dark"@) {
        Some("dark"@)
    } else if contains(v, "light"@) || contains(v, "prefer-light"@) {
        Some("light"@)
    } else {
        None
    }
}

pub fn gsettings_appearance(output: &str) -> (r: Option<&'static str>)
    ensures
        match r {
            Some(s) => spec_gsettings_appearance(output@) == Some(s@),
            None => spec_gsettings_appearance(output@) is None,
        },
{
    let v = to_ascii_lowercase(&str_chars(output));
    if vec_contains(&v, &str_chars("dark")) || vec_contains(&v, &str_chars("prefer-dark")) {
        Some("dark")
    } else if vec_contains(&v, &str_chars("light")) || vec_contains(&v, &str_chars("prefer-light")) {
        Some("light")
    } else {
        None
    }
}

/// The theme Windows' `AppsUseLightTheme` registry value gives: 0 is dark, 1 is light.
pub open spec fn spec_registry_appearance(output: Seq<char>) -> Option<Seq<char>> {
    let v = lower(output);
    if contains(v, "0x0"@) {
        Some("dark"@)
    } else if contains(v, "0x1"@) {
        Some("light"@)
    } else {
        None
    }
}

pub fn registry_appearance(output: &str) -> (r: Option<&'static str>)
    ensures
        match r {
            Some(s) => spec_registry_appearance(output@) == Some(s@),
            None => spec_registry_appearance(output@) is None,
        },
{
    let v = to_ascii_lowercase(&str_chars(output));
    if vec_contains(&v, &str_chars("0x0")) {
        Some("dark")
    } else if vec_contains(&v, &str_chars("0x1")) {
        Some("light")
    } else {
        None
    }
}

/// The theme macOS's `AppleInterfaceStyle` gives: dark, or undecided.
pub fn defaults_appearance(output: &str) -> (r: Option<&'static str>)
    ensures
        match r {
            Some(s) => s@ == "dark"@ && contains(lower(output@), "dark"@),
            None => !contains(lower(output@), "dark"@),
        },
{
    let v = to_ascii_lowercase(&str_chars(output));
    if vec_contains(&v, &str_chars("dark")) {
        Some("dark")
    } else {
        None
    }
}

/// The first theme the desktop decided, else `system`, which leaves the
/// choice to the web view.
pub fn settle_appearance(found: Option<&'static str>) -> (r: &'static str)
    ensures
        r@ == match found {
            Some(s) => s@,
            None => "system"@,
        },
{
    match found {
        Some(s) => s,
        None => "system",
    }
}

/// Applies a patch to the running settings and the log level they name.
/// As with [`crate::settings::apply_patch`], the patched values stay even when
/// the check fails, and the log level then stays as it was.
pub fn update_settings(
    settings: &mut crate::models::Settings,
    log: &mut crate::logging::LogState,
    patch: crate::models::SettingsPatch,
) -> (r: Result<(), AppError>)
    ensures
        *final(settings) == crate::settings::patched(*old(settings), patch),
        crate::download::unit_result_view(r) == crate::settings::spec_validate(
            crate::settings::patched(*old(settings), patch),
        ),
        r is Ok ==> final(log).level == crate::logging::spec_parse_level(
            final(settings).log_level@,
        ),
        r is Err ==> *final(log) == *old(log),
{
    crate::settings::apply_patch(settings, patch)?;
    crate::logging::set_level(log, settings.log_level.as_str());
    Ok(())
}

/// `m` is what migrating `s` gives.
pub open spec fn migrated(s: crate::models::Settings, m: crate::models::Settings) -> bool {
    &&& crate::settings::only_urls_and_schema_changed(s, m)
    &&& crate::text::string_views(m.filter_list_urls@) == crate::settings::backfill(
        crate::text::string_views(s.filter_list_urls@),
        crate::settings::default_filter_urls(),
    )
}

/// Settings read from disk, brought to the current schema and checked.
pub fn finish_load(settings: crate::models::Settings) -> (r: Result<
    crate::models::Settings,
    AppError,
>)
    ensures
        settings.schema_version > crate::settings::CURRENT_SCHEMA ==> r is Err,
        settings.schema_version <= crate::settings::CURRENT_SCHEMA ==> match r {
            Ok(s) => migrated(settings, s) && crate::settings::spec_validate(s) is Ok,
            Err(e) => exists|m: crate::models::Settings|
                migrated(settings, m) && crate::settings::spec_validate(m) == Err::<(), _>(e@),
        },
{
    let mut s = settings;
    crate::settings::migrate(&mut s)?;
    let checked = crate::settings::validate(&s);
    match checked {
        Ok(()) => Ok(s),
        Err(e) => {
            assert(migrated(settings, s));
            Err(e)
        },
    }
}

/// Whether the scheduler may start another download: fewer than the limit
/// are running.
pub fn may_start(active: usize, limit: usize) -> (r: bool)
    ensures
        r == (active < limit),
{
    active < limit
}

/// The configured number of parallel downloads, between one and four.
pub open spec fn spec_concurrency_limit(max_concurrent_downloads: u8) -> int {
    if max_concurrent_downloads < 1 {
        1
    } else if max_concurrent_downloads > 4 {
        4
    } else {
        max_concurrent_downloads as int
    }
}

/// How many downloads run at once: the configured number, between one and four.
pub fn concurrency_limit(max_concurrent_downloads: u8) -> (r: usize)
    ensures
        r == spec_concurrency_limit(max_concurrent_downloads),
{
    if max_concurrent_downloads < 1 {
        1
    } else if max_concurrent_downloads > 4 {
        4
    } else {
        max_concurrent_downloads as usize
    }
}


/// How many downloads of a history are running.
pub open spec fn running_count(s: Seq<DownloadItem>) -> nat
    decreases s.len(),
{
    if s.len() == 0 {
        0
    } else {
        running_count(s.drop_last()) + if s.last().status == DownloadStatus::Downloading {
            1nat
        } else {
            0nat
        }
    }
}

proof fn lemma_running_count_update(s: Seq<DownloadItem>, i: int, v: DownloadItem)
    requires
        0 <= i < s.len(),
    ensures
        running_count(s.update(i, v)) + (if s[i].status == DownloadStatus::Downloading {
            1int
        } else {
            0int
        }) == running_count(s) + (if v.status == DownloadStatus::Downloading {
            1int
        } else {
            0int
        }),
    decreases s.len(),
{
    let u = s.update(i, v);
    if i == s.len() - 1 {
        assert(u.drop_last() =~= s.drop_last());
    } else {
        assert(u.drop_last() =~= s.drop_last().update(i, v));
        lemma_running_count_update(s.drop_last(), i, v);
    }
}

/// Starting the first queued download when [`may_start`] allows it (fewer
/// running than the limit) keeps the running downloads within the limit,
/// which is between one and four: exactly one more runs.
pub proof fn starting_stays_within_limit(s: Seq<DownloadItem>, i: int, max_concurrent_downloads: u8)
    requires
        first_queued(s, i),
        running_count(s) < spec_concurrency_limit(max_concurrent_downloads),
    ensures
        running_count(s.update(i, DownloadItem { status: DownloadStatus::Downloading, ..s[i] }))
            == running_count(s) + 1,
        running_count(s.update(i, DownloadItem { status: DownloadStatus::Downloading, ..s[i] }))
            <= spec_concurrency_limit(max_concurrent_downloads),
        1 <= spec_concurrency_limit(max_concurrent_downloads) <= 4,
{
    lemma_running_count_update(s, i, DownloadItem { status: DownloadStatus::Downloading, ..s[i] });
}

} // verus!
