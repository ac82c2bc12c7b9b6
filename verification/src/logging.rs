//! The application log: levels, the lines written, and the redaction that
//! keeps credentials out of every line.
use vstd::prelude::*;
use crate::models::Timestamp;
use crate::text::{
    chars_eq, chars_string, concat, lower, str_chars, string_views, to_ascii_lowercase,
    to_ascii_uppercase, trim, trim_chars, upper,
};
use crate::urls::{
    opt_view,
    form_urlencoded_pairs, form_urlencoded_serialize, pair_views, parse_url, query_pairs,
    replace_query, serialize_pairs, url_parse, url_replace_query,
};

verus! {

pub const ERROR: u8 = 1u8;
pub const WARN: u8 = 2u8;
pub const INFO: u8 = 3u8;
pub const DEBUG: u8 = 4u8;
pub const TRACE: u8 = 5u8;

/// The level a configured name selects: the five names in any ASCII case,
/// around any whitespace; anything else is INFO.
pub open spec fn spec_parse_level(level: Seq<char>) -> u8 {
    let u = upper(trim(level));
    if u == "ERROR"@ {
        ERROR
    } else if u == "WARN"@ {
        WARN
    } else if u == "DEBUG"@ {
        DEBUG
    } else if u == "TRACE"@ {
        TRACE
    } else {
        INFO
    }
}

pub fn parse_level(level: &str) -> (r: u8)
    ensures
        r == spec_parse_level(level@),
{
    let u = to_ascii_uppercase(&trim_chars(&str_chars(level)));
    if chars_eq(&u, &str_chars("ERROR")) {
        ERROR
    } else if chars_eq(&u, &str_chars("WARN")) {
        WARN
    } else if chars_eq(&u, &str_chars("DEBUG")) {
        DEBUG
    } else if chars_eq(&u, &str_chars("TRACE")) {
        TRACE
    } else {
        INFO
    }
}

/// The most detailed level that is written.
pub struct LogState {
    pub level: u8,
}

impl LogState {
    /// Logging starts at INFO.
    pub fn new() -> (r: LogState)
        ensures
            r.level == INFO,
    {
        LogState { level: INFO }
    }
}

/// Sets the level from its configured name.
pub fn set_level(state: &mut LogState, level: &str)
    ensures
        final(state).level == spec_parse_level(level@),
{
    state.level = parse_level(level);
}

pub open spec fn level_name(level: u8) -> Seq<char> {
    if level == ERROR {
        "ERROR"@
    } else if level == WARN {
        "WARN"@
    } else if level == DEBUG {
        "DEBUG"@
    } else if level == TRACE {
        "TRACE"@
    } else {
        "INFO"@
    }
}

fn level_text(level: u8) -> (r: &'static str)
    ensures
        r@ == level_name(level),
{
    if level == ERROR {
        "ERROR"
    } else if level == WARN {
        "WARN"
    } else if level == DEBUG {
        "DEBUG"
    } else if level == TRACE {
        "TRACE"
    } else {
        "INFO"
    }
}

/// The keys whose query values never reach the log.
pub open spec fn sensitive_keys() -> Seq<Seq<char>> {
    seq![
        "token"@,
        "key"@,
        "sig"@,
        "cp"@,
        "oauth"@,
        "auth"@,
        "cookie"@,
        "pass"@,
        "password"@,
        "session"@,
        "sapisid"@,
        "hsid"@,
        "ssid"@,
        "id_token"@,
        "access_token"@,
        "refresh_token"@,
        "code"@,
        "credential"@,
        "secret"@,
    ]
}

fn sensitive_key_list() -> (r: Vec<String>)
    ensures
        string_views(r@) == sensitive_keys(),
{
    let mut r: Vec<String> = Vec::new();
    r.push(String::from_str("token"));
    r.push(String::from_str("key"));
    r.push(String::from_str("sig"));
    r.push(String::from_str("cp"));
    r.push(String::from_str("oauth"));
    r.push(String::from_str("auth"));
    r.push(String::from_str("cookie"));
    r.push(String::from_str("pass"));
    r.push(String::from_str("password"));
    r.push(String::from_str("session"));
    r.push(String::from_str("sapisid"));
    r.push(String::from_str("hsid"));
    r.push(String::from_str("ssid"));
    r.push(String::from_str("id_token"));
    r.push(String::from_str("access_token"));
    r.push(String::from_str("refresh_token"));
    r.push(String::from_str("code"));
    r.push(String::from_str("credential"));
    r.push(String::from_str("secret"));
    assert(string_views(r@) =~= sensitive_keys());
    r
}

/// A query key that names a credential, compared ignoring ASCII case.
pub open spec fn is_sensitive_key(key: Seq<char>) -> bool {
    sensitive_keys().contains(lower(key))
}

pub open spec fn redact_pair(p: (Seq<char>, Seq<char>)) -> (Seq<char>, Seq<char>) {
    if is_sensitive_key(p.0) && p.1.len() > 0 {
        (p.0, "[redacted]"@)
    } else {
        p
    }
}

pub open spec fn any_redacted(ps: Seq<(Seq<char>, Seq<char>)>) -> bool {
    exists|i: int| 0 <= i < ps.len() && is_sensitive_key((#[trigger] ps[i]).0) && ps[i].1.len() > 0
}

/// A URL with the non-empty values of its credential query keys replaced by
/// `[redacted]`; a URL that does not parse, has no query, or has no such
/// value stays as it is.
pub open spec fn spec_redact_url(raw: Seq<char>) -> Seq<char> {
    match url_parse(raw) {
        None => raw,
        Some(u) => match u.query {
            Some(q) => if q.len() > 0 && any_redacted(form_urlencoded_pairs(q)) {
                match url_replace_query(
                    raw,
                    form_urlencoded_serialize(
                        form_urlencoded_pairs(q).map_values(
                            |p: (Seq<char>, Seq<char>)| redact_pair(p),
                        ),
                    ),
                ) {
                    Some(t) => t,
                    None => raw,
                }
            } else {
                raw
            },
            None => raw,
        },
    }
}

fn sensitive_key(key: &String, keys: &Vec<String>) -> (r: bool)
    requires
        string_views(keys@) == sensitive_keys(),
    ensures
        r == is_sensitive_key(key@),
{
    let k = to_ascii_lowercase(&str_chars(key.as_str()));
    let mut i: usize = 0;
    while i < keys.len()
        invariant
            i <= keys@.len(),
            string_views(keys@) == sensitive_keys(),
            k@ == lower(key@),
            forall|j: int| 0 <= j < i ==> sensitive_keys()[j] != lower(key@),
        decreases keys@.len() - i,
    {
        assert(string_views(keys@)[i as int] == keys@[i as int]@);
        if chars_eq(&k, &str_chars(keys[i].as_str())) {
            assert(sensitive_keys()[i as int] == lower(key@));
            return true;
        }
        i = i + 1;
    }
    false
}

/// Redacts the credential query values of one URL.
pub fn redact_url(raw: &str) -> (r: String)
    ensures
        r@ == spec_redact_url(raw@),
{
    let url = match parse_url(raw) {
        Some(u) => u,
        None => return String::from_str(raw),
    };
    let query = match &url.query {
        Some(q) => q,
        None => return String::from_str(raw),
    };
    if str_chars(query.as_str()).len() == 0 {
        return String::from_str(raw);
    }
    let pairs = query_pairs(query.as_str());
    let keys = sensitive_key_list();
    let mut rebuilt: Vec<(String, String)> = Vec::new();
    let mut changed = false;
    let mut i: usize = 0;
    let ghost ps = form_urlencoded_pairs(query@);
    while i < pairs.len()
        invariant
            i <= pairs@.len(),
            pair_views(pairs@) == ps,
            string_views(keys@) == sensitive_keys(),
            pair_views(rebuilt@) == ps.take(i as int).map_values(
                |p: (Seq<char>, Seq<char>)| redact_pair(p),
            ),
            changed == any_redacted(ps.take(i as int)),
        decreases pairs@.len() - i,
    {
        let (k, v) = (pairs[i].0.clone(), pairs[i].1.clone());
        proof {
            assert(ps[i as int] == (k@, v@));
        }
        let sensitive = sensitive_key(&k, &keys) && str_chars(v.as_str()).len() > 0;
        let ghost before = rebuilt@;
        if sensitive {
            rebuilt.push((k, String::from_str("[redacted]")));
            changed = true;
        } else {
            rebuilt.push((k, v));
        }
        proof {
            assert(ps.take(i + 1) =~= ps.take(i as int).push(ps[i as int]));
            assert(pair_views(rebuilt@) =~= pair_views(before).push(redact_pair(ps[i as int])));
            assert(ps.take(i + 1).map_values(|p: (Seq<char>, Seq<char>)| redact_pair(p))
                =~= ps.take(i as int).map_values(|p: (Seq<char>, Seq<char>)| redact_pair(p)).push(
                redact_pair(ps[i as int]),
            ));
            if sensitive {
                assert(ps.take(i + 1)[i as int] == ps[i as int]);
            } else {
                assert forall|j: int|
                    0 <= j < ps.take(i + 1).len() && is_sensitive_key(
                        (#[trigger] ps.take(i + 1)[j]).0,
                    ) implies ps.take(i + 1)[j].1.len() == 0 || j < i by {
                    if j < i {
                    } else {
                        assert(ps.take(i + 1)[j] == ps[i as int]);
                    }
                }
                if any_redacted(ps.take(i + 1)) {
                    let j = choose|j: int|
                        0 <= j < ps.take(i + 1).len() && is_sensitive_key(
                            (#[trigger] ps.take(i + 1)[j]).0,
                        ) && ps.take(i + 1)[j].1.len() > 0;
                    assert(ps.take(i as int)[j] == ps[j]);
                }
            }
        }
        i = i + 1;
    }
    assert(ps.take(pairs@.len() as int) =~= ps);
    if !changed {
        return String::from_str(raw);
    }
    let serialized = serialize_pairs(&rebuilt);
    match replace_query(raw, serialized.as_str()) {
        Some(t) => t,
        None => String::from_str(raw),
    }
}

/// The pieces a text falls into around the matches of the URL pattern
/// `https?://[^\s"'<>]+`, as `regex::Regex::find_iter` finds them, each with
/// whether it is a match.
pub uninterp spec fn url_match_pieces(text: Seq<char>) -> Seq<(Seq<char>, bool)>;

/// The pieces a text falls into around the matches of the header pattern
/// `(?i)(cookie|authorization|set-cookie|proxy-authorization):[^\r\n,;]*`, as
/// `regex::Regex::captures_iter` finds them; a match carries the header name
/// its first group captured.
pub uninterp spec fn header_match_pieces(text: Seq<char>) -> Seq<(Seq<char>, Option<Seq<char>>)>;

pub open spec fn url_piece_views(v: Seq<(String, bool)>) -> Seq<(Seq<char>, bool)> {
    v.map_values(|p: (String, bool)| (p.0@, p.1))
}

pub open spec fn header_piece_views(v: Seq<(String, Option<String>)>) -> Seq<
    (Seq<char>, Option<Seq<char>>),
> {
    v.map_values(|p: (String, Option<String>)| (p.0@, opt_view(p.1)))
}

pub open spec fn url_piece_texts(v: Seq<(Seq<char>, bool)>) -> Seq<Seq<char>> {
    v.map_values(|p: (Seq<char>, bool)| p.0)
}

pub open spec fn header_piece_texts(v: Seq<(Seq<char>, Option<Seq<char>>)>) -> Seq<Seq<char>> {
    v.map_values(|p: (Seq<char>, Option<Seq<char>>)| p.0)
}

/// Cuts a text at the matches of the URL pattern with `regex::Regex::find_iter`.
/// The contract claims that the pieces are what the regex crate finds, which
/// [`url_match_pieces`] names, and that they make up the text in order.
#[verifier::external_body]
fn split_at_urls(text: &str) -> (r: Vec<(String, bool)>)
    ensures
        url_piece_views(r@) == url_match_pieces(text@),
        concat(url_piece_texts(url_piece_views(r@))) == text@,
{
    let re = regex::Regex::new(r#"https?://[^\s"'<>]+"#).unwrap();
    let mut pieces = Vec::new();
    let mut last: usize = 0;
    for m in re.find_iter(text) {
        pieces.push((text[last..m.start()].to_string(), false));
        pieces.push((m.as_str().to_string(), true));
        last = m.end();
    }
    pieces.push((text[last..].to_string(), false));
    pieces
}

/// Cuts a text at the matches of the header pattern with
/// `regex::Regex::captures_iter`. The contract claims that the pieces and
/// captured names are what the regex crate finds, which
/// [`header_match_pieces`] names, and that the pieces make up the text in order.
#[verifier::external_body]
fn split_at_headers(text: &str) -> (r: Vec<(String, Option<String>)>)
    ensures
        header_piece_views(r@) == header_match_pieces(text@),
        concat(header_piece_texts(header_piece_views(r@))) == text@,
{
    let re = regex::Regex::new(r"(?i)(cookie|authorization|set-cookie|proxy-authorization):[^\r\n,;]*").unwrap();
    let mut pieces = Vec::new();
    let mut last: usize = 0;
    for c in re.captures_iter(text) {
        let (whole, name) = (c.get(0).unwrap(), c[1].to_string());
        pieces.push((text[last..whole.start()].to_string(), None));
        pieces.push((whole.as_str().to_string(), Some(name)));
        last = whole.end();
    }
    pieces.push((text[last..].to_string(), None));
    pieces
}

pub open spec fn redact_header_piece(p: (Seq<char>, Option<Seq<char>>)) -> Seq<char> {
    match p.1 {
        Some(name) => name + ": [redacted]"@,
        None => p.0,
    }
}

pub open spec fn redact_url_piece(p: (Seq<char>, bool)) -> Seq<char> {
    if p.1 {
        spec_redact_url(p.0)
    } else {
        p.0
    }
}

/// The text with every credential header's value replaced, then every URL's
/// credential query values.
pub open spec fn spec_redact_headers(input: Seq<char>) -> Seq<char> {
    concat(
        header_match_pieces(input).map_values(
            |p: (Seq<char>, Option<Seq<char>>)| redact_header_piece(p),
        ),
    )
}

pub open spec fn spec_redact_sensitive(input: Seq<char>) -> Seq<char> {
    let h = spec_redact_headers(input);
    concat(url_match_pieces(h).map_values(|p: (Seq<char>, bool)| redact_url_piece(p)))
}

proof fn lemma_concat_push(parts: Seq<Seq<char>>, x: Seq<char>)
    ensures
        concat(parts.push(x)) == concat(parts) + x,
{
    assert(parts.push(x).drop_last() =~= parts);
}

fn redact_headers(input: &str) -> (r: String)
    ensures
        r@ == spec_redact_headers(input@),
        (forall|i: int|
            0 <= i < header_match_pieces(input@).len() ==> (#[trigger] header_match_pieces(
                input@,
            )[i]).1 is None) ==> r@ == input@,
{
    let pieces = split_at_headers(input);
    let ghost hp = header_match_pieces(input@);
    let ghost f = |p: (Seq<char>, Option<Seq<char>>)| redact_header_piece(p);
    let mut out = String::new();
    let mut i: usize = 0;
    assert(hp.take(0) =~= Seq::<(Seq<char>, Option<Seq<char>>)>::empty());
    assert(hp.take(0).map_values(f) =~= Seq::<Seq<char>>::empty());
    assert(header_piece_texts(hp.take(0)) =~= Seq::<Seq<char>>::empty());
    while i < pieces.len()
        invariant
            i <= pieces@.len(),
            header_piece_views(pieces@) == hp,
            f == |p: (Seq<char>, Option<Seq<char>>)| redact_header_piece(p),
            out@ == concat(hp.take(i as int).map_values(f)),
            (forall|j: int| 0 <= j < i ==> (#[trigger] hp[j]).1 is None) ==> out@ == concat(
                header_piece_texts(hp.take(i as int)),
            ),
        decreases pieces@.len() - i,
    {
        proof {
            assert(hp[i as int] == (pieces@[i as int].0@, opt_view(pieces@[i as int].1)));
            assert(hp.take(i + 1) =~= hp.take(i as int).push(hp[i as int]));
            assert(hp.take(i + 1).map_values(f) =~= hp.take(i as int).map_values(f).push(
                f(hp[i as int]),
            ));
            assert(header_piece_texts(hp.take(i + 1)) =~= header_piece_texts(hp.take(i as int)).push(
                hp[i as int].0,
            ));
            lemma_concat_push(hp.take(i as int).map_values(f), f(hp[i as int]));
            lemma_concat_push(header_piece_texts(hp.take(i as int)), hp[i as int].0);
        }
        match &pieces[i].1 {
            Some(name) => {
                out.append(name.as_str());
                out.append(": [redacted]");
            },
            None => {
                out.append(pieces[i].0.as_str());
            },
        }
        i = i + 1;
    }
    proof {
        assert(hp.take(pieces@.len() as int) =~= hp);
    }
    out
}

/// Keeps credentials out of a log line: the values of cookie and
/// authorization headers, and the credential query values of every URL.
pub fn redact_sensitive(input: &str) -> (r: String)
    ensures
        r@ == spec_redact_sensitive(input@),
        (forall|i: int|
            0 <= i < header_match_pieces(input@).len() ==> (#[trigger] header_match_pieces(
                input@,
            )[i]).1 is None) && (forall|i: int|
            0 <= i < url_match_pieces(input@).len() ==> !(#[trigger] url_match_pieces(
                input@,
            )[i]).1) ==> r@ == input@,
{
    let h = redact_headers(input);
    let pieces = split_at_urls(h.as_str());
    let ghost up = url_match_pieces(h@);
    let ghost f = |p: (Seq<char>, bool)| redact_url_piece(p);
    let mut out = String::new();
    let mut i: usize = 0;
    assert(up.take(0) =~= Seq::<(Seq<char>, bool)>::empty());
    assert(up.take(0).map_values(f) =~= Seq::<Seq<char>>::empty());
    assert(url_piece_texts(up.take(0)) =~= Seq::<Seq<char>>::empty());
    while i < pieces.len()
        invariant
            i <= pieces@.len(),
            url_piece_views(pieces@) == up,
            f == |p: (Seq<char>, bool)| redact_url_piece(p),
            out@ == concat(up.take(i as int).map_values(f)),
            (forall|j: int| 0 <= j < i ==> !(#[trigger] up[j]).1) ==> out@ == concat(
                url_piece_texts(up.take(i as int)),
            ),
        decreases pieces@.len() - i,
    {
        proof {
            assert(up[i as int] == (pieces@[i as int].0@, pieces@[i as int].1));
            assert(up.take(i + 1) =~= up.take(i as int).push(up[i as int]));
            assert(up.take(i + 1).map_values(f) =~= up.take(i as int).map_values(f).push(
                f(up[i as int]),
            ));
            assert(url_piece_texts(up.take(i + 1)) =~= url_piece_texts(up.take(i as int)).push(
                up[i as int].0,
            ));
            lemma_concat_push(up.take(i as int).map_values(f), f(up[i as int]));
            lemma_concat_push(url_piece_texts(up.take(i as int)), up[i as int].0);
        }
        if pieces[i].1 {
            out.append(redact_url(pieces[i].0.as_str()).as_str());
        } else {
            out.append(pieces[i].0.as_str());
        }
        i = i + 1;
    }
    proof {
        assert(up.take(pieces@.len() as int) =~= up);
    }
    out
}

/// The UTC time `secs` seconds and `nanos` nanoseconds after the Unix epoch,
/// as chrono formats it with `%Y-%m-%dT%H:%M:%S%.3fZ`.
pub uninterp spec fn log_time_text(secs: i64, nanos: u32) -> Seq<char>;

/// Formats an instant with chrono's `DateTime::<Utc>::from_timestamp` and
/// `format`. The contract claims only that the text is chrono's, which
/// [`log_time_text`] names; an instant chrono cannot represent gives an empty text.
#[verifier::external_body]
fn format_log_time(now: Timestamp) -> (r: String)
    ensures
        r@ == log_time_text(now.secs, now.nanos),
{
    chrono::DateTime::<chrono::Utc>::from_timestamp(now.secs, now.nanos)
        .map(|t| t.format("%Y-%m-%dT%H:%M:%S%.3fZ").to_string())
        .unwrap_or_default()
}

/// The line a message at `level` adds to the log, or `None` when the log's
/// level leaves it out.
pub open spec fn spec_log_line(threshold: u8, level: u8, message: Seq<char>, time: Seq<char>) -> Option<Seq<char>> {
    if level > threshold {
        None
    } else {
        Some(time + " "@ + level_name(level) + " "@ + spec_redact_sensitive(message) + "\n"@)
    }
}

fn log(state: &LogState, level: u8, message: &str, now: Timestamp) -> (r: Option<String>)
    ensures
        opt_view(r) == spec_log_line(state.level, level, message@, log_time_text(now.secs, now.nanos)),
{
    if level > state.level {
        return None;
    }
    let mut line = format_log_time(now);
    line.append(" ");
    line.append(level_text(level));
    line.append(" ");
    line.append(redact_sensitive(message).as_str());
    line.append("\n");
    Some(line)
}

/// The log line for an error.
pub fn error(state: &LogState, message: &str, now: Timestamp) -> (r: Option<String>)
    ensures
        opt_view(r) == spec_log_line(state.level, ERROR, message@, log_time_text(now.secs, now.nanos)),
{
    log(state, ERROR, message, now)
}

/// The log line for a warning.
pub fn warn(state: &LogState, message: &str, now: Timestamp) -> (r: Option<String>)
    ensures
        opt_view(r) == spec_log_line(state.level, WARN, message@, log_time_text(now.secs, now.nanos)),
{
    log(state, WARN, message, now)
}

/// The log line for an informational message.
pub fn info(state: &LogState, message: &str, now: Timestamp) -> (r: Option<String>)
    ensures
        opt_view(r) == spec_log_line(state.level, INFO, message@, log_time_text(now.secs, now.nanos)),
{
    log(state, INFO, message, now)
}

/// The log line for a debugging message.
pub fn debug(state: &LogState, message: &str, now: Timestamp) -> (r: Option<String>)
    ensures
        opt_view(r) == spec_log_line(state.level, DEBUG, message@, log_time_text(now.secs, now.nanos)),
{
    log(state, DEBUG, message, now)
}

/// The log line for a trace message.
pub fn trace(state: &LogState, message: &str, now: Timestamp) -> (r: Option<String>)
    ensures
        opt_view(r) == spec_log_line(state.level, TRACE, message@, log_time_text(now.secs, now.nanos)),
{
    log(state, TRACE, message, now)
}

} // verus!
