//! Reading the JSON metadata yt-dlp prints for a URL (`--dump-single-json`).
use vstd::prelude::*;
use crate::error::{AppError, AppErrorKind};
use crate::json::{
    as_str, as_u64, get, json_get, json_parse, json_str, json_text, json_to_string, json_u64, jv,
    opt_ref_jv, or, parse_json, Json, JsonV,
};
use crate::models::{InspectResult, VideoEntry};
use crate::text::{
    at_most, at_most_chars, chars_eq, chars_string, lines, lines_chars, starts_with, str_chars,
    vec_starts_with, views,
};
use crate::urls::opt_view;

verus! {

/// A playlist entry or single video, with its texts as character sequences.
pub struct EntryV {
    pub id: Seq<char>,
    pub url: Seq<char>,
    pub title: Seq<char>,
    pub channel: Seq<char>,
    pub duration: Option<Seq<char>>,
    pub thumbnail: Option<Seq<char>>,
}

pub open spec fn entry_v(e: VideoEntry) -> EntryV {
    EntryV {
        id: e.id@,
        url: e.url@,
        title: e.title@,
        channel: e.channel@,
        duration: opt_view(e.duration),
        thumbnail: opt_view(e.thumbnail),
    }
}

/// What yt-dlp reported, with its texts as character sequences.
pub struct InspectV {
    pub title: Option<Seq<char>>,
    pub channel: Option<Seq<char>>,
    pub duration: Option<Seq<char>>,
    pub thumbnail: Option<Seq<char>>,
    pub size_bytes: Option<u64>,
    pub entries: Seq<EntryV>,
}

pub open spec fn inspect_v(r: InspectResult) -> InspectV {
    InspectV {
        title: opt_view(r.title),
        channel: opt_view(r.channel),
        duration: opt_view(r.duration),
        thumbnail: opt_view(r.thumbnail),
        size_bytes: r.size_bytes,
        entries: r.entries@.map_values(|e: VideoEntry| entry_v(e)),
    }
}

/// The uploader, or the channel where no uploader member is present.
pub open spec fn channel_of(v: JsonV) -> Option<Seq<char>> {
    as_str(or(get(v, "uploader"@), get(v, "channel"@)))
}

/// The duration text, or the duration in seconds, as JSON text; `None` when
/// absent or null.
pub open spec fn duration_of(v: JsonV) -> Option<Seq<char>> {
    match or(get(v, "duration_string"@), get(v, "duration"@)) {
        Some(d) => if json_text(d) == "null"@ {
            None
        } else {
            Some(json_text(d))
        },
        None => None,
    }
}

pub open spec fn entry_url(v: JsonV, id: Seq<char>) -> Seq<char> {
    match as_str(or(get(v, "webpage_url"@), get(v, "url"@))) {
        Some(u) => if starts_with(u, "http"@) {
            u
        } else {
            "https://www.youtube.com/watch?v="@ + id
        },
        None => "https://www.youtube.com/watch?v="@ + id,
    }
}

/// The entry a JSON object describes: it needs a non-empty string id; the
/// URL falls back to the watch page, the title to "Untitled video", and title
/// and channel are cut to 512 and 256 characters.
pub open spec fn spec_parse_entry(v: JsonV) -> Option<EntryV> {
    match as_str(get(v, "id"@)) {
        None => None,
        Some(id) => if id.len() == 0 {
            None
        } else {
            Some(
                EntryV {
                    id,
                    url: entry_url(v, id),
                    title: at_most(
                        match as_str(get(v, "title"@)) {
                            Some(t) => t,
                            None => "Untitled video"@,
                        },
                        512,
                    ),
                    channel: at_most(
                        match channel_of(v) {
                            Some(c) => c,
                            None => Seq::<char>::empty(),
                        },
                        256,
                    ),
                    duration: duration_of(v),
                    thumbnail: as_str(get(v, "thumbnail"@)),
                },
            )
        },
    }
}

/// The entries that parse, in order.
pub open spec fn collect_entries(a: Seq<JsonV>) -> Seq<EntryV>
    decreases a.len(),
{
    if a.len() == 0 {
        Seq::<EntryV>::empty()
    } else {
        let r = collect_entries(a.drop_last());
        match spec_parse_entry(a.last()) {
            Some(e) => r.push(e),
            None => r,
        }
    }
}

pub open spec fn first_n<A>(s: Seq<A>, n: nat) -> Seq<A> {
    if s.len() <= n {
        s
    } else {
        s.take(n as int)
    }
}

/// What [`inspect_value`] reads from yt-dlp's JSON: the file size is
/// `filesize`, else `filesize_approx`; a playlist's entries are its first
/// 500 that parse, and a single video is its own entry.
pub open spec fn spec_inspect_value(v: JsonV) -> InspectV {
    InspectV {
        title: as_str(get(v, "title"@)),
        channel: channel_of(v),
        duration: duration_of(v),
        thumbnail: as_str(get(v, "thumbnail"@)),
        size_bytes: match as_u64(get(v, "filesize"@)) {
            Some(n) => Some(n),
            None => as_u64(get(v, "filesize_approx"@)),
        },
        entries: match get(v, "entries"@) {
            Some(JsonV::Array(a)) => collect_entries(first_n(a, 500)),
            _ => match spec_parse_entry(v) {
                Some(e) => seq![e],
                None => Seq::<EntryV>::empty(),
            },
        },
    }
}

/// The last line that is one JSON value, parsed.
pub open spec fn last_json(ls: Seq<Seq<char>>) -> Option<JsonV>
    decreases ls.len(),
{
    if ls.len() == 0 {
        None
    } else if json_parse(ls.last()) is Some {
        json_parse(ls.last())
    } else {
        last_json(ls.drop_last())
    }
}

/// What [`parse_inspect`] answers for yt-dlp's output.
pub open spec fn spec_parse_inspect(stdout: Seq<char>) -> Result<InspectV, (AppErrorKind, Seq<char>)> {
    match last_json(lines(stdout)) {
        None => Err((AppErrorKind::Process, "yt-dlp returned invalid metadata"@)),
        Some(v) => Ok(spec_inspect_value(v)),
    }
}

fn or_get<'a>(v: &'a Json, first: &str, second: &str) -> (r: Option<&'a Json>)
    ensures
        opt_ref_jv(r) == or(get(jv(*v), first@), get(jv(*v), second@)),
{
    let a = json_get(v, first);
    if a.is_some() {
        a
    } else {
        json_get(v, second)
    }
}

fn duration_text(v: &Json) -> (r: Option<String>)
    ensures
        opt_view(r) == duration_of(jv(*v)),
{
    match or_get(v, "duration_string", "duration") {
        Some(d) => {
            let t = json_to_string(d);
            if chars_eq(&str_chars(t.as_str()), &str_chars("null")) {
                None
            } else {
                Some(t)
            }
        },
        None => None,
    }
}

/// Reads one playlist entry (or a single video) from yt-dlp's JSON.
pub fn parse_entry(value: &Json) -> (r: Option<VideoEntry>)
    ensures
        match r {
            Some(e) => spec_parse_entry(jv(*value)) == Some(entry_v(e)),
            None => spec_parse_entry(jv(*value)) is None,
        },
{
    let id = match json_str(json_get(value, "id")) {
        Some(s) => s,
        None => return None,
    };
    let id_chars = str_chars(id.as_str());
    if id_chars.len() == 0 {
        return None;
    }
    let url = match json_str(or_get(value, "webpage_url", "url")) {
        Some(u) if vec_starts_with(&str_chars(u.as_str()), &str_chars("http")) => u,
        _ => {
            let mut u = String::from_str("https://www.youtube.com/watch?v=");
            u.append(id.as_str());
            u
        },
    };
    let title_full = match json_str(json_get(value, "title")) {
        Some(t) => t,
        None => String::from_str("Untitled video"),
    };
    let title = chars_string(&at_most_chars(&str_chars(title_full.as_str()), 512));
    let channel_full = match json_str(or_get(value, "uploader", "channel")) {
        Some(c) => c,
        None => String::new(),
    };
    let channel = chars_string(&at_most_chars(&str_chars(channel_full.as_str()), 256));
    let duration = duration_text(value);
    let thumbnail = json_str(json_get(value, "thumbnail"));
    Some(VideoEntry { id, url, title, channel, duration, thumbnail })
}

/// Reads the metadata of a parsed yt-dlp JSON document.
pub fn inspect_value(value: &Json) -> (r: InspectResult)
    ensures
        inspect_v(r) == spec_inspect_value(jv(*value)),
{
    let title = json_str(json_get(value, "title"));
    let channel = json_str(or_get(value, "uploader", "channel"));
    let duration = duration_text(value);
    let thumbnail = json_str(json_get(value, "thumbnail"));
    let size_bytes = match json_u64(json_get(value, "filesize")) {
        Some(n) => Some(n),
        None => json_u64(json_get(value, "filesize_approx")),
    };
    let mut entries: Vec<VideoEntry> = Vec::new();
    match json_get(value, "entries") {
        Some(Json::Array(a)) => {
            let ghost av = jv(Json::Array(*a))->Array_0;
            proof {
                crate::json::lemma_array_view(*a);
            }
            let n = if a.len() < 500 {
                a.len()
            } else {
                500
            };
            let mut i: usize = 0;
            assert(first_n(av, 500).take(0) =~= Seq::<JsonV>::empty());
            while i < n
                invariant
                    i <= n,
                    n <= a@.len(),
                    n == if av.len() <= 500 { av.len() } else { 500 },
                    av == crate::json::item_views(a@),
                    entries@.map_values(|e: VideoEntry| entry_v(e)) == collect_entries(
                        first_n(av, 500).take(i as int),
                    ),
                decreases n - i,
            {
                proof {
                    assert(first_n(av, 500).take(i + 1).drop_last() =~= first_n(av, 500).take(
                        i as int,
                    ));
                    assert(first_n(av, 500).take(i + 1).last() == jv(a@[i as int]));
                }
                match parse_entry(&a[i]) {
                    Some(e) => {
                        let ghost before = entries@;
                        entries.push(e);
                        assert(entries@.map_values(|e: VideoEntry| entry_v(e)) =~= before.map_values(
                            |e: VideoEntry| entry_v(e),
                        ).push(entry_v(e)));
                    },
                    None => {},
                }
                i = i + 1;
            }
            assert(first_n(av, 500).take(n as int) =~= first_n(av, 500));
        },
        _ => {
            match parse_entry(value) {
                Some(e) => {
                    entries.push(e);
                    assert(entries@.map_values(|e: VideoEntry| entry_v(e)) =~= seq![entry_v(e)]);
                },
                None => {
                    assert(entries@.map_values(|e: VideoEntry| entry_v(e)) =~= Seq::<EntryV>::empty());
                },
            }
        },
    }
    InspectResult { title, channel, duration, thumbnail, size_bytes, entries }
}

fn last_json_line(ls: &Vec<Vec<char>>) -> (r: Option<Json>)
    ensures
        crate::json::opt_jv(r) == last_json(views(ls@)),
{
    let mut i: usize = ls.len();
    assert(views(ls@).take(ls@.len() as int) =~= views(ls@));
    while i > 0
        invariant
            i <= ls@.len(),
            last_json(views(ls@)) == last_json(views(ls@).take(i as int)),
        decreases i,
    {
        proof {
            assert(views(ls@).take(i as int).last() == ls@[i - 1]@);
            assert(views(ls@).take(i as int).drop_last() =~= views(ls@).take(i - 1));
        }
        let parsed = parse_json(chars_string(&ls[i - 1]).as_str());
        if parsed.is_some() {
            return parsed;
        }
        i = i - 1;
    }
    None
}

pub open spec fn inspect_result_view(r: Result<InspectResult, AppError>) -> Result<
    InspectV,
    (AppErrorKind, Seq<char>),
> {
    match r {
        Ok(v) => Ok(inspect_v(v)),
        Err(e) => Err(e@),
    }
}

/// Reads yt-dlp's `--dump-single-json` output: the last line that is JSON.
pub fn parse_inspect(stdout: &str) -> (r: Result<InspectResult, AppError>)
    ensures
        inspect_result_view(r) == spec_parse_inspect(stdout@),
{
    let ls = lines_chars(&str_chars(stdout));
    match last_json_line(&ls) {
        Some(v) => Ok(inspect_value(&v)),
        None => Err(AppError::Process(String::from_str("yt-dlp returned invalid metadata"))),
    }
}

} // verus!
