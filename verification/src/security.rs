//! URL and file-name policy: which URLs Yood accepts and navigates to, and
//! how titles become safe file names.
use vstd::prelude::*;
use vstd::utf8::encode_utf8;
use crate::error::{AppError, AppErrorKind};
use crate::text::{
    any_control, byte_len, char_ascii_upper, char_is_control, char_width_of, chars_eq,
    chars_string, ends_with, has_control, lemma_byte_len_push, lower, str_chars, to_ascii_lowercase,
    trim, trim_chars, upper, vec_ends_with, is_control, utf8_byte_len,
};
use crate::urls::{parse_url, url_parse, UrlParts, UrlView};

verus! {

/// `host` is `domain` or one of its subdomains.
pub open spec fn host_matches(host: Seq<char>, domain: Seq<char>) -> bool {
    host == domain || ends_with(host, seq!['.'] + domain)
}

/// The hosts whose URLs can be downloaded.
pub open spec fn is_youtube_host(host: Seq<char>) -> bool {
    ||| host_matches(host, "youtube.com"@)
    ||| host_matches(host, "www.youtube.com"@)
    ||| host_matches(host, "m.youtube.com"@)
    ||| host_matches(host, "music.youtube.com"@)
    ||| host_matches(host, "youtu.be"@)
}

/// The hosts the main window may navigate to.
pub open spec fn is_navigation_host(host: Seq<char>) -> bool {
    ||| is_youtube_host(host)
    ||| host_matches(host, "google.com"@)
    ||| host_matches(host, "www.google.com"@)
    ||| host_matches(host, "accounts.google.com"@)
    ||| host_matches(host, "accounts.youtube.com"@)
    ||| host_matches(host, "gstatic.com"@)
    ||| host_matches(host, "googleusercontent.com"@)
    ||| host_matches(host, "ytimg.com"@)
    ||| host_matches(host, "googlevideo.com"@)
    ||| host_matches(host, "youtube-nocookie.com"@)
}

/// The host of a parsed URL in lower case, or the empty text where it has none.
pub open spec fn lower_host(u: UrlView) -> Seq<char> {
    match u.host {
        Some(h) => lower(h),
        None => Seq::<char>::empty(),
    }
}

pub open spec fn err(kind: AppErrorKind, detail: Seq<char>) -> (AppErrorKind, Seq<char>) {
    (kind, detail)
}

/// What [`validate_youtube_url`] makes of a text: the parsed URL, or the error.
pub open spec fn spec_validate_youtube_url(raw: Seq<char>) -> Result<UrlView, (AppErrorKind, Seq<char>)> {
    if byte_len(raw) > 4096 || has_control(raw) {
        Err(err(AppErrorKind::InvalidInput, "invalid URL"@))
    } else {
        match url_parse(raw) {
            None => Err(err(AppErrorKind::InvalidInput, "invalid URL"@)),
            Some(u) => if u.scheme != "https"@ {
                Err(err(AppErrorKind::UnsupportedUrl, "only HTTPS YouTube URLs are supported"@))
            } else if !is_youtube_host(lower_host(u)) {
                Err(err(AppErrorKind::UnsupportedUrl, "only YouTube URLs are supported"@))
            } else if lower_host(u) == "youtu.be"@ && byte_len(u.path) < 2 {
                Err(err(AppErrorKind::InvalidInput, "short YouTube URL has no video id"@))
            } else {
                Ok(u)
            },
        }
    }
}

pub open spec fn result_view<T: View>(r: Result<T, AppError>) -> Result<T::V, (AppErrorKind, Seq<char>)> {
    match r {
        Ok(v) => Ok(v@),
        Err(e) => Err(e@),
    }
}

pub fn host_matches_exec(host: &Vec<char>, domain: &str) -> (r: bool)
    ensures
        r == host_matches(host@, domain@),
{
    let d = str_chars(domain);
    if chars_eq(host, &d) {
        return true;
    }
    let mut dotted: Vec<char> = Vec::new();
    dotted.push('.');
    let mut i: usize = 0;
    while i < d.len()
        invariant
            i <= d.len(),
            dotted@ == seq!['.'] + d@.take(i as int),
        decreases d.len() - i,
    {
        dotted.push(d[i]);
        i = i + 1;
        assert(seq!['.'] + d@.take(i as int) =~= (seq!['.'] + d@.take(i - 1)).push(d@[i - 1]));
    }
    assert(d@.take(d.len() as int) =~= d@);
    vec_ends_with(host, &dotted)
}

pub fn youtube_host(host: &Vec<char>) -> (r: bool)
    ensures
        r == is_youtube_host(host@),
{
    host_matches_exec(host, "youtube.com") || host_matches_exec(host, "www.youtube.com")
        || host_matches_exec(host, "m.youtube.com") || host_matches_exec(host, "music.youtube.com")
        || host_matches_exec(host, "youtu.be")
}

pub fn navigation_host(host: &Vec<char>) -> (r: bool)
    ensures
        r == is_navigation_host(host@),
{
    youtube_host(host) || host_matches_exec(host, "google.com") || host_matches_exec(
        host,
        "www.google.com",
    ) || host_matches_exec(host, "accounts.google.com") || host_matches_exec(
        host,
        "accounts.youtube.com",
    ) || host_matches_exec(host, "gstatic.com") || host_matches_exec(host, "googleusercontent.com")
        || host_matches_exec(host, "ytimg.com") || host_matches_exec(host, "googlevideo.com")
        || host_matches_exec(host, "youtube-nocookie.com")
}

/// The lower-cased host of a parsed URL (empty where it has none).
pub fn url_lower_host(u: &UrlParts) -> (r: Vec<char>)
    ensures
        r@ == lower_host(u@),
{
    match &u.host {
        Some(h) => {
            let v = str_chars(h.as_str());
            to_ascii_lowercase(&v)
        },
        None => Vec::new(),
    }
}

/// Accepts only HTTPS URLs on YouTube's own hosts (and their subdomains) and
/// returns them parsed.
pub fn validate_youtube_url(raw: &str) -> (r: Result<UrlParts, AppError>)
    ensures
        result_view(r) == spec_validate_youtube_url(raw@),
{
    let chars = str_chars(raw);
    if utf8_byte_len(&chars) > 4096 || any_control(&chars) {
        return Err(AppError::InvalidInput(String::from_str("invalid URL")));
    }
    let url = match parse_url(raw) {
        Some(u) => u,
        None => {
            return Err(AppError::InvalidInput(String::from_str("invalid URL")));
        },
    };
    let scheme = str_chars(url.scheme.as_str());
    let https = str_chars("https");
    if !chars_eq(&scheme, &https) {
        return Err(
            AppError::UnsupportedUrl(String::from_str("only HTTPS YouTube URLs are supported")),
        );
    }
    let host = url_lower_host(&url);
    if !youtube_host(&host) {
        return Err(AppError::UnsupportedUrl(String::from_str("only YouTube URLs are supported")));
    }
    let short = str_chars("youtu.be");
    if chars_eq(&host, &short) && utf8_byte_len(&str_chars(url.path.as_str())) < 2 {
        return Err(AppError::InvalidInput(String::from_str("short YouTube URL has no video id")));
    }
    Ok(url)
}

/// Whether the main window may navigate to a parsed URL: only the hosts that
/// YouTube and Google sign-in need.
pub fn is_supported_navigation(url: &UrlParts) -> (r: bool)
    ensures
        r == is_navigation_host(lower_host(url@)),
{
    let host = url_lower_host(url);
    navigation_host(&host)
}

/// Characters that cannot stand in a file name on any supported platform.
pub open spec fn invalid_filename_char(c: char) -> bool {
    ||| is_control(c)
    ||| c == '<'
    ||| c == '>'
    ||| c == ':'
    ||| c == '"'
    ||| c == '/'
    ||| c == '\\'
    ||| c == '|'
    ||| c == '?'
    ||| c == '*'
}

pub open spec fn replace_invalid(s: Seq<char>) -> Seq<char> {
    s.map_values(|c: char| if invalid_filename_char(c) { '_' } else { c })
}

/// What `trim_end_matches(['.', ' '])` leaves.
pub open spec fn trim_end_dots(s: Seq<char>) -> Seq<char>
    decreases s.len(),
{
    if s.len() > 0 && (s.last() == '.' || s.last() == ' ') {
        trim_end_dots(s.drop_last())
    } else {
        s
    }
}

/// Device names that Windows reserves.
pub open spec fn is_reserved_name(s: Seq<char>) -> bool {
    let u = upper(s);
    ||| u == "CON"@
    ||| u == "PRN"@
    ||| u == "AUX"@
    ||| u == "NUL"@
    ||| u == "COM1"@
    ||| u == "COM2"@
    ||| u == "COM3"@
    ||| u == "COM4"@
    ||| u == "LPT1"@
    ||| u == "LPT2"@
    ||| u == "LPT3"@
}

/// The longest prefix of `s` whose UTF-8 encoding fits in `max` bytes.
pub open spec fn truncate_bytes(s: Seq<char>, max: nat) -> Seq<char>
    decreases s.len(),
{
    if byte_len(s) > max && s.len() > 0 {
        truncate_bytes(s.drop_last(), max)
    } else {
        s
    }
}

/// The file name [`sanitize_filename`] makes of a text.
pub open spec fn spec_sanitize_filename(input: Seq<char>, fallback: Seq<char>, max: nat) -> Seq<char> {
    let trimmed = trim_end_dots(trim(replace_invalid(input)));
    let base = if trimmed.len() == 0 {
        fallback
    } else {
        trimmed
    };
    let named = if is_reserved_name(base) {
        seq!['_'] + base
    } else {
        base
    };
    trim_end_dots(truncate_bytes(named, max))
}

pub fn trim_end_dots_chars(v: &Vec<char>) -> (r: Vec<char>)
    ensures
        r@ == trim_end_dots(v@),
{
    let mut r = v.clone();
    while r.len() > 0 && (r[r.len() - 1] == '.' || r[r.len() - 1] == ' ')
        invariant
            trim_end_dots(r@) == trim_end_dots(v@),
        decreases r.len(),
    {
        r.pop();
    }
    r
}

pub fn is_reserved(v: &Vec<char>) -> (r: bool)
    ensures
        r == is_reserved_name(v@),
{
    let mut u: Vec<char> = Vec::new();
    let mut i: usize = 0;
    while i < v.len()
        invariant
            i <= v.len(),
            u@ == upper(v@.take(i as int)),
        decreases v.len() - i,
    {
        let c = char_ascii_upper(v[i]);
        u.push(c);
        i = i + 1;
        assert(upper(v@.take(i as int)) =~= upper(v@.take(i - 1)).push(c));
    }
    assert(v@.take(v.len() as int) =~= v@);
    chars_eq(&u, &str_chars("CON")) || chars_eq(&u, &str_chars("PRN")) || chars_eq(
        &u,
        &str_chars("AUX"),
    ) || chars_eq(&u, &str_chars("NUL")) || chars_eq(&u, &str_chars("COM1")) || chars_eq(
        &u,
        &str_chars("COM2"),
    ) || chars_eq(&u, &str_chars("COM3")) || chars_eq(&u, &str_chars("COM4")) || chars_eq(
        &u,
        &str_chars("LPT1"),
    ) || chars_eq(&u, &str_chars("LPT2")) || chars_eq(&u, &str_chars("LPT3"))
}

/// Makes a title usable as a file name: characters no file system accepts
/// become `_`, surrounding blanks and trailing dots go, an empty result falls
/// back to `fallback`, reserved Windows device names get a `_` in front, and
/// the name is cut to at most `max_bytes` bytes of UTF-8.
pub fn sanitize_filename(input: &str, fallback: &str, max_bytes: usize) -> (r: String)
    ensures
        r@ == spec_sanitize_filename(input@, fallback@, max_bytes as nat),
{
    let chars = str_chars(input);
    let mut replaced: Vec<char> = Vec::new();
    let mut i: usize = 0;
    while i < chars.len()
        invariant
            i <= chars.len(),
            replaced@ == replace_invalid(chars@.take(i as int)),
        decreases chars.len() - i,
    {
        let c = chars[i];
        let bad = char_is_control(c) || c == '<' || c == '>' || c == ':' || c == '"' || c == '/'
            || c == '\\' || c == '|' || c == '?' || c == '*';
        let out = if bad {
            '_'
        } else {
            c
        };
        replaced.push(out);
        i = i + 1;
        assert(replace_invalid(chars@.take(i as int)) =~= replace_invalid(chars@.take(i - 1)).push(
            out,
        ));
    }
    assert(chars@.take(chars.len() as int) =~= chars@);
    let trimmed = trim_end_dots_chars(&trim_chars(&replaced));
    let base = if trimmed.len() == 0 {
        str_chars(fallback)
    } else {
        trimmed
    };
    let named = if is_reserved(&base) {
        let mut n: Vec<char> = Vec::new();
        n.push('_');
        let mut j: usize = 0;
        while j < base.len()
            invariant
                j <= base.len(),
                n@ == seq!['_'] + base@.take(j as int),
            decreases base.len() - j,
        {
            n.push(base[j]);
            j = j + 1;
            assert(seq!['_'] + base@.take(j as int) =~= (seq!['_'] + base@.take(j - 1)).push(
                base@[j - 1],
            ));
        }
        assert(base@.take(base.len() as int) =~= base@);
        n
    } else {
        base
    };
    let mut cut = named;
    let mut size = utf8_byte_len(&cut);
    while size > max_bytes as u128 && cut.len() > 0
        invariant
            size == byte_len(cut@),
            truncate_bytes(cut@, max_bytes as nat) == truncate_bytes(named@, max_bytes as nat),
        decreases cut.len(),
    {
        let last = cut[cut.len() - 1];
        proof {
            lemma_byte_len_push(cut@.drop_last(), last);
            assert(cut@.drop_last().push(last) =~= cut@);
        }
        cut.pop();
        let w = char_width_of(last);
        size = size - w as u128;
    }
    let fin = trim_end_dots_chars(&cut);
    chars_string(&fin)
}

/// Only HTTPS URLs on YouTube's own hosts are ever accepted for download.
pub proof fn accepted_urls_are_https_youtube(raw: Seq<char>)
    requires
        spec_validate_youtube_url(raw) is Ok,
    ensures
        spec_validate_youtube_url(raw)->Ok_0.scheme == "https"@,
        is_youtube_host(lower_host(spec_validate_youtube_url(raw)->Ok_0)),
        url_parse(raw) == Some(spec_validate_youtube_url(raw)->Ok_0),
        byte_len(raw) <= 4096 && !has_control(raw),
{
}

proof fn lemma_byte_len_drop_last(s: Seq<char>)
    requires
        s.len() > 0,
    ensures
        byte_len(s.drop_last()) <= byte_len(s),
{
    assert(s =~= s.drop_last().push(s.last()));
    crate::text::lemma_byte_len_push(s.drop_last(), s.last());
}

proof fn lemma_trim_end_dots_shrinks(s: Seq<char>)
    ensures
        byte_len(trim_end_dots(s)) <= byte_len(s),
        trim_end_dots(s).len() <= s.len(),
        trim_end_dots(s) == s.take(trim_end_dots(s).len() as int),
        trim_end_dots(s).len() > 0 ==> trim_end_dots(s).last() != '.' && trim_end_dots(s).last()
            != ' ',
    decreases s.len(),
{
    if s.len() > 0 && (s.last() == '.' || s.last() == ' ') {
        lemma_trim_end_dots_shrinks(s.drop_last());
        lemma_byte_len_drop_last(s);
        assert(s.drop_last().take(trim_end_dots(s).len() as int) =~= s.take(
            trim_end_dots(s).len() as int,
        ));
    } else {
        assert(s.take(s.len() as int) =~= s);
    }
}

proof fn lemma_truncate_bytes_fits(s: Seq<char>, max: nat)
    ensures
        byte_len(truncate_bytes(s, max)) <= max,
        truncate_bytes(s, max) == s.take(truncate_bytes(s, max).len() as int),
        truncate_bytes(s, max).len() <= s.len(),
    decreases s.len(),
{
    if byte_len(s) > max && s.len() > 0 {
        lemma_truncate_bytes_fits(s.drop_last(), max);
        assert(s.drop_last().take(truncate_bytes(s, max).len() as int) =~= s.take(
            truncate_bytes(s, max).len() as int,
        ));
    } else {
        assert(s.take(s.len() as int) =~= s);
        if s.len() == 0 {
            assert(encode_utf8(s) =~= Seq::<u8>::empty());
        }
    }
}

/// A sanitized file name fits the byte budget it was given, never ends in a
/// dot or a blank, and holds no character a file system refuses as long as
/// the fallback holds none.
pub proof fn sanitized_names_are_safe(input: Seq<char>, fallback: Seq<char>, max: nat)
    ensures
        byte_len(spec_sanitize_filename(input, fallback, max)) <= max,
        spec_sanitize_filename(input, fallback, max).len() > 0 ==> spec_sanitize_filename(
            input,
            fallback,
            max,
        ).last() != '.' && spec_sanitize_filename(input, fallback, max).last() != ' ',
        (forall|i: int| 0 <= i < fallback.len() ==> !invalid_filename_char(#[trigger] fallback[i]))
            ==> (forall|i: int|
            0 <= i < spec_sanitize_filename(input, fallback, max).len()
                ==> !invalid_filename_char(
                #[trigger] spec_sanitize_filename(input, fallback, max)[i],
            )),
{
    let replaced = replace_invalid(input);
    let trimmed = trim_end_dots(trim(replaced));
    let base = if trimmed.len() == 0 {
        fallback
    } else {
        trimmed
    };
    let named = if is_reserved_name(base) {
        seq!['_'] + base
    } else {
        base
    };
    let cut = truncate_bytes(named, max);
    lemma_truncate_bytes_fits(named, max);
    lemma_trim_end_dots_shrinks(cut);
    if forall|i: int| 0 <= i < fallback.len() ==> !invalid_filename_char(#[trigger] fallback[i]) {
        assert forall|i: int| 0 <= i < replaced.len() implies !invalid_filename_char(
            #[trigger] replaced[i],
        ) by {
            if is_control(input[i]) {
                assert(!is_control('_'));
            }
        }
        let bounds = crate::text::lemma_trim_bounds(replaced);
        lemma_trim_end_dots_shrinks(trim(replaced));
        assert forall|i: int| 0 <= i < trimmed.len() implies !invalid_filename_char(
            #[trigger] trimmed[i],
        ) by {
            assert(trimmed[i] == trim(replaced).take(trimmed.len() as int)[i]);
            assert(trim(replaced)[i] == replaced[bounds.0 + i]);
        }
        assert forall|i: int| 0 <= i < named.len() implies !invalid_filename_char(
            #[trigger] named[i],
        ) by {
            if is_reserved_name(base) && i > 0 {
                assert(named[i] == base[i - 1]);
            }
        }
        let out = trim_end_dots(cut);
        assert forall|i: int| 0 <= i < out.len() implies !invalid_filename_char(#[trigger] out[i]) by {
            assert(out[i] == cut[i]);
            assert(cut[i] == named[i]);
        }
    }
}

} // verus!
