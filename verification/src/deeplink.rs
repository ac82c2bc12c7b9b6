//! Links handed to the application from outside: YouTube URLs to open and
//! `yood://download` links from the browser extension's download dialog.
use vstd::prelude::*;
use crate::download::valid_subtitle_language;
use crate::json::{json_text, json_to_string, Json, JsonV};
use crate::models::{DownloadMode, DownloadRequest};
use crate::security::{is_navigation_host, is_supported_navigation, lower_host};
use crate::text::{
    any_control, byte_len, char_is_ascii_alphanumeric, chars_eq, chars_string, contains,
    has_control, starts_with, str_chars, suffix_chars, utf8_byte_len, vec_contains,
    vec_starts_with,
};
use crate::urls::{
    form_urlencoded_pairs, opt_view, pair_views, parse_url, query_pairs, url_parse, UrlParts,
    UrlView,
};

verus! {

/// A parsed URL the main window may show: a navigation host whose name
/// mentions YouTube, or `youtu.be`.
pub open spec fn is_youtube_destination(u: UrlView) -> bool {
    u.host matches Some(h) && is_navigation_host(lower_host(u)) && (contains(h, "youtube"@) || h
        == "youtu.be"@)
}

/// The YouTube page an argument names: the URL itself, or for a `yood://`
/// link the same address over HTTPS.
pub open spec fn spec_youtube_url(argument: Seq<char>) -> Option<Seq<char>> {
    match url_parse(argument) {
        None => None,
        Some(u) => {
            let n = if u.scheme == "yood"@ {
                if starts_with(argument, "yood://"@) {
                    url_parse("https://"@ + argument.skip("yood://"@.len() as int))
                } else {
                    None
                }
            } else {
                Some(u)
            };
            match n {
                Some(v) => if is_youtube_destination(v) {
                    Some(v.serialized)
                } else {
                    None
                },
                None => None,
            }
        },
    }
}

fn youtube_destination(u: &UrlParts) -> (r: bool)
    ensures
        r == is_youtube_destination(u@),
{
    match &u.host {
        Some(h) => {
            let hv = str_chars(h.as_str());
            is_supported_navigation(u) && (vec_contains(&hv, &str_chars("youtube")) || chars_eq(
                &hv,
                &str_chars("youtu.be"),
            ))
        },
        None => false,
    }
}

/// The YouTube URL an argument or link names, normalised.
pub fn youtube_url_from_str(argument: &str) -> (r: Option<String>)
    ensures
        opt_view(r) == spec_youtube_url(argument@),
{
    let url = match parse_url(argument) {
        Some(u) => u,
        None => return None,
    };
    let normalised = if chars_eq(&str_chars(url.scheme.as_str()), &str_chars("yood")) {
        let chars = str_chars(argument);
        let prefix = str_chars("yood://");
        if !vec_starts_with(&chars, &prefix) {
            return None;
        }
        let mut https = String::from_str("https://");
        https.append(chars_string(&suffix_chars(&chars, prefix.len())).as_str());
        match parse_url(https.as_str()) {
            Some(v) => v,
            None => return None,
        }
    } else {
        url
    };
    if youtube_destination(&normalised) {
        Some(normalised.serialized)
    } else {
        None
    }
}

/// The first argument that names a YouTube page.
pub open spec fn first_youtube_url(args: Seq<Seq<char>>) -> Option<Seq<char>>
    decreases args.len(),
{
    if args.len() == 0 {
        None
    } else if spec_youtube_url(args[0]) is Some {
        spec_youtube_url(args[0])
    } else {
        first_youtube_url(args.drop_first())
    }
}

/// The page to open at start: the first command-line argument (after the
/// program name, which the caller leaves out) that names a YouTube page.
pub fn startup_url(args: &Vec<String>) -> (r: Option<String>)
    ensures
        opt_view(r) == first_youtube_url(crate::text::string_views(args@)),
{
    let ghost sv = crate::text::string_views(args@);
    let mut i: usize = 0;
    assert(sv.skip(0) =~= sv);
    while i < args.len()
        invariant
            i <= args@.len(),
            sv == crate::text::string_views(args@),
            first_youtube_url(sv) == first_youtube_url(sv.skip(i as int)),
        decreases args@.len() - i,
    {
        proof {
            assert(sv.skip(i as int)[0] == args@[i as int]@);
            assert(sv.skip(i as int).drop_first() =~= sv.skip(i + 1));
        }
        let found = youtube_url_from_str(args[i].as_str());
        if found.is_some() {
            return found;
        }
        i = i + 1;
    }
    assert(sv.skip(args@.len() as int) =~= Seq::<Seq<char>>::empty());
    None
}

/// The script that points the main window at a destination, with the URL
/// quoted as a JSON string; `None` where the destination does not parse.
pub open spec fn spec_navigation_script(destination: Seq<char>) -> Option<Seq<char>> {
    match url_parse(destination) {
        Some(u) => Some(
            "window.location.replace("@ + json_text(JsonV::Str(u.serialized)) + ");"@,
        ),
        None => None,
    }
}

pub fn navigation_script(destination: &str) -> (r: Option<String>)
    ensures
        opt_view(r) == spec_navigation_script(destination@),
{
    match parse_url(destination) {
        Some(u) => {
            let quoted = json_to_string(&Json::Str(u.serialized));
            let mut s = String::from_str("window.location.replace(");
            s.append(quoted.as_str());
            s.append(");");
            Some(s)
        },
        None => None,
    }
}

/// A download the extension asked for, with its options checked.
#[derive(Debug, Clone)]
pub struct DownloadLink {
    pub url: String,
    pub mode: DownloadMode,
    pub quality: String,
    pub container: String,
    pub format_selector: Option<String>,
    pub subtitles: bool,
    pub subtitle_language: Option<String>,
    pub embed_thumbnail: bool,
}

/// The value of the last query pair named `k`, as a map built from the pairs keeps it.
pub open spec fn param(ps: Seq<(Seq<char>, Seq<char>)>, k: Seq<char>) -> Option<Seq<char>>
    decreases ps.len(),
{
    if ps.len() == 0 {
        None
    } else if ps.last().0 == k {
        Some(ps.last().1)
    } else {
        param(ps.drop_last(), k)
    }
}

pub open spec fn or_default(o: Option<Seq<char>>, d: Seq<char>) -> Seq<char> {
    match o {
        Some(v) => v,
        None => d,
    }
}

pub open spec fn mode_named(m: Seq<char>) -> Option<DownloadMode> {
    if m == "video"@ {
        Some(DownloadMode::Video)
    } else if m == "audio"@ {
        Some(DownloadMode::Audio)
    } else if m == "songs"@ {
        Some(DownloadMode::Songs)
    } else {
        None
    }
}

pub open spec fn allowed_quality(q: Seq<char>) -> bool {
    q == "best"@ || q == "1080"@ || q == "720"@ || q == "480"@ || q == "worst"@
}

/// The texts of a download link's fields.
pub struct LinkV {
    pub url: Seq<char>,
    pub mode: DownloadMode,
    pub quality: Seq<char>,
    pub container: Seq<char>,
    pub format_selector: Option<Seq<char>>,
    pub subtitles: bool,
    pub subtitle_language: Option<Seq<char>>,
    pub embed_thumbnail: bool,
}

pub open spec fn link_v(l: DownloadLink) -> LinkV {
    LinkV {
        url: l.url@,
        mode: l.mode,
        quality: l.quality@,
        container: l.container@,
        format_selector: opt_view(l.format_selector),
        subtitles: l.subtitles,
        subtitle_language: opt_view(l.subtitle_language),
        embed_thumbnail: l.embed_thumbnail,
    }
}

/// What a `yood://download?url=...` link asks for: the target must be an
/// HTTPS YouTube page, and every option one of its allowed values; anything
/// else is refused as a whole.
pub open spec fn spec_download_link(argument: Seq<char>) -> Option<LinkV> {
    match url_parse(argument) {
        None => None,
        Some(u) => if u.scheme != "yood"@ || u.host != Some("download"@) {
            None
        } else {
            let ps = form_urlencoded_pairs(or_default(u.query, Seq::<char>::empty()));
            match param(ps, "url"@) {
                None => None,
                Some(target) => if byte_len(target) > 4096 {
                    None
                } else {
                    match url_parse(target) {
                        None => None,
                        Some(t) => {
                            let mode = mode_named(or_default(param(ps, "mode"@), "video"@));
                            let quality = or_default(param(ps, "quality"@), "best"@);
                            let container = or_default(param(ps, "container"@), "mp4"@);
                            let selector = param(ps, "format_selector"@);
                            let language = param(ps, "subtitle_lang"@);
                            if t.scheme != "https"@ || !is_youtube_destination(t) {
                                None
                            } else if mode is None || !allowed_quality(quality) || (container
                                != "mp4"@ && container != "mkv"@) {
                                None
                            } else if selector matches Some(s) && s.len() > 0 && (byte_len(s)
                                > 256 || has_control(s)) {
                                None
                            } else if language matches Some(l) && l.len() > 0
                                && !valid_subtitle_language(l) {
                                None
                            } else {
                                Some(
                                    LinkV {
                                        url: t.serialized,
                                        mode: mode->0,
                                        quality,
                                        container,
                                        format_selector: match selector {
                                            Some(s) => if s.len() > 0 {
                                                Some(s)
                                            } else {
                                                None
                                            },
                                            None => None,
                                        },
                                        subtitles: param(ps, "subtitles"@) == Some("1"@),
                                        subtitle_language: match language {
                                            Some(l) => if l.len() > 0 {
                                                Some(l)
                                            } else {
                                                None
                                            },
                                            None => None,
                                        },
                                        embed_thumbnail: param(ps, "embed_thumbnail"@) == Some(
                                            "1"@,
                                        ),
                                    },
                                )
                            }
                        },
                    }
                }
            }
        },
    }
}

fn param_value(pairs: &Vec<(String, String)>, key: &str) -> (r: Option<String>)
    ensures
        opt_view(r) == param(pair_views(pairs@), key@),
{
    let k = str_chars(key);
    let mut i: usize = pairs.len();
    let ghost pv = pair_views(pairs@);
    assert(pv.take(pairs@.len() as int) =~= pv);
    while i > 0
        invariant
            i <= pairs@.len(),
            pv == pair_views(pairs@),
            k@ == key@,
            param(pv, key@) == param(pv.take(i as int), key@),
        decreases i,
    {
        proof {
            assert(pv.take(i as int).last() == (pairs@[i - 1].0@, pairs@[i - 1].1@));
            assert(pv.take(i as int).drop_last() =~= pv.take(i - 1));
        }
        if chars_eq(&str_chars(pairs[i - 1].0.as_str()), &k) {
            return Some(pairs[i - 1].1.clone());
        }
        i = i - 1;
    }
    None
}

fn text_or(o: Option<String>, d: &str) -> (r: String)
    ensures
        r@ == or_default(opt_view(o), d@),
{
    match o {
        Some(v) => v,
        None => String::from_str(d),
    }
}

fn language_ok(l: &Vec<char>) -> (r: bool)
    ensures
        r == valid_subtitle_language(l@),
{
    if l.len() == 0 || utf8_byte_len(l) > 16 {
        return false;
    }
    let mut i: usize = 0;
    while i < l.len()
        invariant
            i <= l.len(),
            forall|j: int|
                0 <= j < i ==> crate::text::is_ascii_alphanumeric(#[trigger] l@[j]) || l@[j]
                    == '-',
        decreases l.len() - i,
    {
        if !(char_is_ascii_alphanumeric(l[i]) || l[i] == '-') {
            return false;
        }
        i = i + 1;
    }
    true
}

pub open spec fn opt_link_v(r: Option<DownloadLink>) -> Option<LinkV> {
    match r {
        Some(l) => Some(link_v(l)),
        None => None,
    }
}

/// Reads a `yood://download` link from the extension.
pub fn download_url_from_str(argument: &str) -> (r: Option<DownloadLink>)
    ensures
        opt_link_v(r) == spec_download_link(argument@),
{
    let url = match parse_url(argument) {
        Some(u) => u,
        None => return None,
    };
    if !chars_eq(&str_chars(url.scheme.as_str()), &str_chars("yood")) {
        return None;
    }
    match &url.host {
        Some(h) => {
            if !chars_eq(&str_chars(h.as_str()), &str_chars("download")) {
                return None;
            }
        },
        None => return None,
    }
    let pairs = match &url.query {
        Some(q) => query_pairs(q.as_str()),
        None => {
            let empty = String::new();
            query_pairs(empty.as_str())
        },
    };
    let target = match param_value(&pairs, "url") {
        Some(t) => t,
        None => return None,
    };
    if utf8_byte_len(&str_chars(target.as_str())) > 4096 {
        return None;
    }
    let parsed = match parse_url(target.as_str()) {
        Some(p) => p,
        None => return None,
    };
    let mode_text = str_chars(text_or(param_value(&pairs, "mode"), "video").as_str());
    let quality = text_or(param_value(&pairs, "quality"), "best");
    let container = text_or(param_value(&pairs, "container"), "mp4");
    let selector = param_value(&pairs, "format_selector");
    let language = param_value(&pairs, "subtitle_lang");
    if !chars_eq(&str_chars(parsed.scheme.as_str()), &str_chars("https")) || !youtube_destination(
        &parsed,
    ) {
        return None;
    }
    let mode = if chars_eq(&mode_text, &str_chars("video")) {
        DownloadMode::Video
    } else if chars_eq(&mode_text, &str_chars("audio")) {
        DownloadMode::Audio
    } else if chars_eq(&mode_text, &str_chars("songs")) {
        DownloadMode::Songs
    } else {
        return None;
    };
    let q = str_chars(quality.as_str());
    if !(chars_eq(&q, &str_chars("best")) || chars_eq(&q, &str_chars("1080")) || chars_eq(
        &q,
        &str_chars("720"),
    ) || chars_eq(&q, &str_chars("480")) || chars_eq(&q, &str_chars("worst"))) {
        return None;
    }
    let c = str_chars(container.as_str());
    if !(chars_eq(&c, &str_chars("mp4")) || chars_eq(&c, &str_chars("mkv"))) {
        return None;
    }
    let format_selector = match selector {
        Some(s) => {
            let sv = str_chars(s.as_str());
            if sv.len() == 0 {
                None
            } else if utf8_byte_len(&sv) > 256 || any_control(&sv) {
                return None;
            } else {
                Some(s)
            }
        },
        None => None,
    };
    let subtitle_language = match language {
        Some(l) => {
            let lv = str_chars(l.as_str());
            if lv.len() == 0 {
                None
            } else if !language_ok(&lv) {
                return None;
            } else {
                Some(l)
            }
        },
        None => None,
    };
    let subtitles = match param_value(&pairs, "subtitles") {
        Some(v) => chars_eq(&str_chars(v.as_str()), &str_chars("1")),
        None => false,
    };
    let embed_thumbnail = match param_value(&pairs, "embed_thumbnail") {
        Some(v) => chars_eq(&str_chars(v.as_str()), &str_chars("1")),
        None => false,
    };
    Some(
        DownloadLink {
            url: parsed.serialized,
            mode,
            quality,
            container,
            format_selector,
            subtitles,
            subtitle_language,
            embed_thumbnail,
        },
    )
}

/// The download request a link from the extension becomes.
pub fn link_request(link: DownloadLink) -> (r: DownloadRequest)
    ensures
        r.url == link.url,
        r.mode == link.mode,
        r.quality == link.quality,
        r.container == link.container,
        r.format_selector == link.format_selector,
        r.audio_quality is None,
        r.subtitles == link.subtitles,
        r.subtitle_language == link.subtitle_language,
        r.embed_thumbnail == link.embed_thumbnail,
        r.context matches Some(c) && c@ == "extension"@,
{
    DownloadRequest {
        url: link.url,
        mode: link.mode,
        quality: link.quality,
        container: link.container,
        format_selector: link.format_selector,
        audio_quality: None,
        subtitles: link.subtitles,
        subtitle_language: link.subtitle_language,
        embed_thumbnail: link.embed_thumbnail,
        context: Some(String::from_str("extension")),
    }
}


/// Whether one of the command-line arguments (after the program name) is
/// exactly `flag`, as `--self-test` and `--quit` are looked for.
pub fn has_argument(args: &Vec<String>, flag: &str) -> (r: bool)
    ensures
        r == crate::text::string_views(args@).contains(flag@),
{
    let ghost sv = crate::text::string_views(args@);
    let f = str_chars(flag);
    let mut i: usize = 0;
    while i < args.len()
        invariant
            i <= args@.len(),
            sv == crate::text::string_views(args@),
            f@ == flag@,
            forall|j: int| 0 <= j < i ==> sv[j] != flag@,
        decreases args@.len() - i,
    {
        if chars_eq(&str_chars(args[i].as_str()), &f) {
            assert(sv[i as int] == flag@);
            return true;
        }
        i = i + 1;
    }
    false
}


/// The options a download link's query names: the link's mode is video,
/// audio or songs exactly as its `mode` parameter says, video where it has
/// none; its quality and container are the parameters', `best` and `mp4`
/// where they are absent.
pub proof fn link_options_follow_their_parameters(argument: Seq<char>)
    requires
        spec_download_link(argument) is Some,
    ensures
        ({
            let link = spec_download_link(argument)->0;
            let u = url_parse(argument)->0;
            let ps = form_urlencoded_pairs(or_default(u.query, Seq::<char>::empty()));
            &&& param(ps, "mode"@) is None ==> link.mode == DownloadMode::Video
            &&& param(ps, "mode"@) == Some("video"@) ==> link.mode == DownloadMode::Video
            &&& param(ps, "mode"@) == Some("audio"@) ==> link.mode == DownloadMode::Audio
            &&& param(ps, "mode"@) == Some("songs"@) ==> link.mode == DownloadMode::Songs
            &&& param(ps, "mode"@) matches Some(m) ==> (m == "video"@ || m == "audio"@ || m
                == "songs"@)
            &&& param(ps, "quality"@) is None ==> link.quality == "best"@
            &&& param(ps, "quality"@) matches Some(q) ==> link.quality == q
            &&& param(ps, "container"@) is None ==> link.container == "mp4"@
            &&& param(ps, "container"@) matches Some(c) ==> link.container == c
        }),
{
    reveal_strlit("video");
    reveal_strlit("audio");
    reveal_strlit("songs");
    assert("audio"@ != "video"@) by {
        assert("audio"@[0] != "video"@[0]);
    }
    assert("songs"@ != "video"@) by {
        assert("songs"@[0] != "video"@[0]);
    }
    assert("songs"@ != "audio"@) by {
        assert("songs"@[0] != "audio"@[0]);
    }
    let u = url_parse(argument)->0;
    let ps = form_urlencoded_pairs(or_default(u.query, Seq::<char>::empty()));
    let named = mode_named(or_default(param(ps, "mode"@), "video"@));
    assert(named is Some);
    assert(spec_download_link(argument)->0.mode == named->0);
    assert(spec_download_link(argument)->0.quality == or_default(param(ps, "quality"@), "best"@));
    assert(spec_download_link(argument)->0.container == or_default(param(ps, "container"@), "mp4"@));
    let link = spec_download_link(argument)->0;
    assert(param(ps, "mode"@) is None ==> link.mode == DownloadMode::Video);
    assert(param(ps, "mode"@) == Some("video"@) ==> link.mode == DownloadMode::Video);
    assert(param(ps, "mode"@) == Some("audio"@) ==> link.mode == DownloadMode::Audio);
    assert(param(ps, "mode"@) == Some("songs"@) ==> link.mode == DownloadMode::Songs);
    assert(param(ps, "mode"@) matches Some(m) ==> (m == "video"@ || m == "audio"@ || m == "songs"@));
}


/// The rest of a download link's options: subtitles and the thumbnail are
/// asked for exactly when their parameter is `1`; a format selector or a
/// subtitle language is kept where the parameter is not empty; and the video
/// is the HTTPS YouTube page the `url` parameter names, as the url crate
/// writes it.
pub proof fn link_flags_follow_their_parameters(argument: Seq<char>)
    requires
        spec_download_link(argument) is Some,
    ensures
        ({
            let link = spec_download_link(argument)->0;
            let u = url_parse(argument)->0;
            let ps = form_urlencoded_pairs(or_default(u.query, Seq::<char>::empty()));
            let target = url_parse(param(ps, "url"@)->0);
            &&& link.subtitles <==> Some("1"@) == param(ps, "subtitles"@)
            &&& link.embed_thumbnail <==> Some("1"@) == param(ps, "embed_thumbnail"@)
            &&& forall|f: Seq<char>|
                Some(f) == param(ps, "format_selector"@) && f.len() > 0 ==> link.format_selector
                    == Some(f)
            &&& (forall|f: Seq<char>| Some(f) == param(ps, "format_selector"@) ==> f.len() == 0)
                ==> link.format_selector is None
            &&& forall|l: Seq<char>|
                Some(l) == param(ps, "subtitle_lang"@) && l.len() > 0 ==> link.subtitle_language
                    == Some(l) && valid_subtitle_language(l)
            &&& (forall|l: Seq<char>| Some(l) == param(ps, "subtitle_lang"@) ==> l.len() == 0)
                ==> link.subtitle_language is None
            &&& target is Some && link.url == target->0.serialized
            &&& target->0.scheme == "https"@ && is_youtube_destination(target->0)
        }),
{
}

} // verus!
