//! Download requests: which requests are accepted, the yt-dlp arguments a
//! request becomes, and how yt-dlp's output is read back.
use vstd::prelude::*;
use crate::error::{AppError, AppErrorKind};
use crate::models::{DownloadMode, DownloadRequest, InspectResult, Settings};
use crate::text::{
    any_control, at_most, char_is_whitespace, is_whitespace, at_most_chars, byte_len, char_is_ascii_alphanumeric, chars_eq,
    chars_string, decimal, digit, digit_char, has_control, is_ascii_alphanumeric, lines,
    lines_chars, parse_u64, parse_u64_chars, split, split_chars, starts_with, str_chars,
    string_views, strip_trailing, strip_trailing_chars, suffix_chars, trim, trim_chars,
    u64_decimal, utf8_byte_len, vec_starts_with, views, float_literal, is_float_literal,
};
use crate::urls::{opt_view, parse_url, url_parse};
use crate::security::{sanitize_filename, spec_sanitize_filename};

verus! {

/// The UTF-8 length of a string's text.
pub open spec fn blen(s: String) -> nat {
    byte_len(s@)
}

/// A subtitle language tag as yt-dlp expects it: "en", "pt-BR", "zh-Hans".
pub open spec fn valid_subtitle_language(v: Seq<char>) -> bool {
    &&& v.len() > 0
    &&& byte_len(v) <= 16
    &&& forall|i: int| 0 <= i < v.len() ==> is_ascii_alphanumeric(#[trigger] v[i]) || v[i] == '-'
}

pub open spec fn bad_optional_text(o: Option<String>, max: nat) -> bool {
    match o {
        Some(s) => byte_len(s@) > max || has_control(s@),
        None => false,
    }
}

/// What [`validate_request`] decides about a request.
pub open spec fn spec_validate_request(r: DownloadRequest) -> Result<(), (AppErrorKind, Seq<char>)> {
    if blen(r.quality) > 32 || (r.container@ != "mp4"@ && r.container@ != "mkv"@) {
        Err((AppErrorKind::InvalidInput, "unsupported download quality or container"@))
    } else if bad_optional_text(r.format_selector, 256) {
        Err((AppErrorKind::InvalidInput, "invalid yt-dlp format selector"@))
    } else if bad_optional_text(r.context, 32) {
        Err((AppErrorKind::InvalidInput, "invalid download context"@))
    } else if r.subtitle_language is Some && !valid_subtitle_language(
        r.subtitle_language->0@,
    ) {
        Err((AppErrorKind::InvalidInput, "invalid subtitle language"@))
    } else {
        Ok(())
    }
}

pub open spec fn unit_result_view(r: Result<(), AppError>) -> Result<(), (AppErrorKind, Seq<char>)> {
    match r {
        Ok(()) => Ok(()),
        Err(e) => Err(e@),
    }
}

pub fn text_bytes(s: &String) -> (r: u128)
    ensures
        r == byte_len(s@),
{
    utf8_byte_len(&str_chars(s.as_str()))
}

pub fn is_valid_subtitle_language(value: &str) -> (r: bool)
    ensures
        r == valid_subtitle_language(value@),
{
    let v = str_chars(value);
    if v.len() == 0 || utf8_byte_len(&v) > 16 {
        return false;
    }
    let mut i: usize = 0;
    while i < v.len()
        invariant
            i <= v.len(),
            v@ == value@,
            forall|j: int| 0 <= j < i ==> is_ascii_alphanumeric(#[trigger] v@[j]) || v@[j] == '-',
        decreases v.len() - i,
    {
        if !(char_is_ascii_alphanumeric(v[i]) || v[i] == '-') {
            assert(!(is_ascii_alphanumeric(value@[i as int]) || value@[i as int] == '-'));
            return false;
        }
        i = i + 1;
    }
    true
}

fn bad_optional(o: &Option<String>, max: u128) -> (r: bool)
    ensures
        r == bad_optional_text(*o, max as nat),
{
    match o {
        Some(s) => text_bytes(s) > max || any_control(&str_chars(s.as_str())),
        None => false,
    }
}

/// Checks the free-form parts of a request before it is queued.
pub fn validate_request(request: &DownloadRequest) -> (r: Result<(), AppError>)
    ensures
        unit_result_view(r) == spec_validate_request(*request),
{
    let container = str_chars(request.container.as_str());
    let mp4 = str_chars("mp4");
    let mkv = str_chars("mkv");
    if text_bytes(&request.quality) > 32 || (!crate::text::chars_eq(&container, &mp4)
        && !crate::text::chars_eq(&container, &mkv)) {
        return Err(
            AppError::InvalidInput(String::from_str("unsupported download quality or container")),
        );
    }
    if bad_optional(&request.format_selector, 256) {
        return Err(AppError::InvalidInput(String::from_str("invalid yt-dlp format selector")));
    }
    if bad_optional(&request.context, 32) {
        return Err(AppError::InvalidInput(String::from_str("invalid download context")));
    }
    match &request.subtitle_language {
        Some(language) => {
            if !is_valid_subtitle_language(language.as_str()) {
                return Err(AppError::InvalidInput(String::from_str("invalid subtitle language")));
            }
        },
        None => {},
    }
    Ok(())
}

pub open spec fn progress_template() -> Seq<char> {
    "download:%(progress._percent_str)s|%(progress._speed_str)s|%(progress._eta_str)s|%(progress.downloaded_bytes)s"@
}

/// The arguments every download starts with.
pub open spec fn base_args(temp: Seq<char>) -> Seq<Seq<char>> {
    seq![
        "--ignore-config"@,
        "--no-playlist"@,
        "--newline"@,
        "--progress"@,
        "--progress-template"@,
        progress_template(),
        "--retries"@,
        "3"@,
        "--fragment-retries"@,
        "3"@,
        "--socket-timeout"@,
        "30"@,
        "--continue"@,
        "--windows-filenames"@,
        "--paths"@,
        temp,
        "--output"@,
        "yood-source.%(ext)s"@,
    ]
}

/// The yt-dlp format selector for a video request.
pub open spec fn video_selector(r: DownloadRequest) -> Seq<char> {
    match r.format_selector {
        Some(s) => s@,
        None => if r.quality@ == "1080"@ {
            "bestvideo*[height<=1080]+bestaudio/best[height<=1080]"@
        } else if r.quality@ == "720"@ {
            "bestvideo*[height<=720]+bestaudio/best[height<=720]"@
        } else if r.quality@ == "480"@ {
            "bestvideo*[height<=480]+bestaudio/best[height<=480]"@
        } else if r.quality@ == "worst"@ {
            "worstvideo+worstaudio/worst"@
        } else {
            "bestvideo*+bestaudio/best"@
        },
    }
}

/// The subtitle language of a download: the request's own, where it is a
/// valid tag, else the configured default.
pub open spec fn subtitle_choice(r: DownloadRequest, s: Settings) -> Seq<char> {
    match r.subtitle_language {
        Some(l) => if valid_subtitle_language(l@) {
            l@
        } else {
            s.subtitle_language@
        },
        None => s.subtitle_language@,
    }
}

/// The arguments that depend on the kind of download.
pub open spec fn mode_args(r: DownloadRequest, s: Settings) -> Seq<Seq<char>> {
    match r.mode {
        DownloadMode::Video => {
            let head = seq!["-f"@, video_selector(r), "--merge-output-format"@, r.container@];
            if r.subtitles || s.download_subtitles {
                head + seq![
                    "--write-subs"@,
                    "--write-auto-subs"@,
                    "--sub-langs"@,
                    subtitle_choice(r, s),
                    "--embed-subs"@,
                ]
            } else {
                head
            }
        },
        _ => {
            let quality = match r.audio_quality {
                Some(q) => q@,
                None => "0"@,
            };
            let head = seq![
                "-f"@,
                "bestaudio/best"@,
                "-x"@,
                "--audio-format"@,
                "mp3"@,
                "--audio-quality"@,
                quality,
            ];
            if r.embed_thumbnail || s.embed_thumbnail || r.mode == DownloadMode::Songs {
                head + seq!["--embed-thumbnail"@, "--add-metadata"@]
            } else {
                head
            }
        },
    }
}

/// The complete yt-dlp command line of a download, without the program itself.
pub open spec fn download_args(r: DownloadRequest, temp: Seq<char>, s: Settings) -> Seq<Seq<char>> {
    base_args(temp) + mode_args(r, s) + seq![r.url@]
}

fn push_lit(v: &mut Vec<String>, s: &str)
    ensures
        string_views(final(v)@) == string_views(old(v)@).push(s@),
{
    v.push(String::from_str(s));
    assert(string_views(v@) =~= string_views(old(v)@).push(s@));
}

fn push_copy(v: &mut Vec<String>, s: &String)
    ensures
        string_views(final(v)@) == string_views(old(v)@).push(s@),
{
    v.push(s.clone());
    assert(string_views(v@) =~= string_views(old(v)@).push(s@));
}

fn video_selector_of(request: &DownloadRequest) -> (r: String)
    ensures
        r@ == video_selector(*request),
{
    match &request.format_selector {
        Some(s) => s.clone(),
        None => {
            let q = str_chars(request.quality.as_str());
            if crate::text::chars_eq(&q, &str_chars("1080")) {
                String::from_str("bestvideo*[height<=1080]+bestaudio/best[height<=1080]")
            } else if crate::text::chars_eq(&q, &str_chars("720")) {
                String::from_str("bestvideo*[height<=720]+bestaudio/best[height<=720]")
            } else if crate::text::chars_eq(&q, &str_chars("480")) {
                String::from_str("bestvideo*[height<=480]+bestaudio/best[height<=480]")
            } else if crate::text::chars_eq(&q, &str_chars("worst")) {
                String::from_str("worstvideo+worstaudio/worst")
            } else {
                String::from_str("bestvideo*+bestaudio/best")
            }
        },
    }
}

/// The yt-dlp command line for a download: fixed progress, retry and output
/// options writing into `temp`, the format options of the request's mode, and
/// the URL last. Every value is its own argument; nothing goes through a shell.
pub fn build_download_args(request: &DownloadRequest, temp: &str, settings: &Settings) -> (r: Result<
    Vec<String>,
    AppError,
>)
    ensures
        r matches Ok(args) && string_views(args@) == download_args(*request, temp@, *settings),
{
    let mut args: Vec<String> = Vec::new();
    push_lit(&mut args, "--ignore-config");
    push_lit(&mut args, "--no-playlist");
    push_lit(&mut args, "--newline");
    push_lit(&mut args, "--progress");
    push_lit(&mut args, "--progress-template");
    push_lit(
        &mut args,
        "download:%(progress._percent_str)s|%(progress._speed_str)s|%(progress._eta_str)s|%(progress.downloaded_bytes)s",
    );
    push_lit(&mut args, "--retries");
    push_lit(&mut args, "3");
    push_lit(&mut args, "--fragment-retries");
    push_lit(&mut args, "3");
    push_lit(&mut args, "--socket-timeout");
    push_lit(&mut args, "30");
    push_lit(&mut args, "--continue");
    push_lit(&mut args, "--windows-filenames");
    push_lit(&mut args, "--paths");
    push_lit(&mut args, temp);
    push_lit(&mut args, "--output");
    push_lit(&mut args, "yood-source.%(ext)s");
    assert(string_views(args@) =~= base_args(temp@));
    let ghost base = string_views(args@);
    match request.mode {
        DownloadMode::Video => {
            let selector = video_selector_of(request);
            push_lit(&mut args, "-f");
            push_copy(&mut args, &selector);
            push_lit(&mut args, "--merge-output-format");
            push_copy(&mut args, &request.container);
            if request.subtitles || settings.download_subtitles {
                let language = match &request.subtitle_language {
                    Some(l) => if is_valid_subtitle_language(l.as_str()) {
                        l.clone()
                    } else {
                        settings.subtitle_language.clone()
                    },
                    None => settings.subtitle_language.clone(),
                };
                push_lit(&mut args, "--write-subs");
                push_lit(&mut args, "--write-auto-subs");
                push_lit(&mut args, "--sub-langs");
                push_copy(&mut args, &language);
                push_lit(&mut args, "--embed-subs");
            }
        },
        DownloadMode::Audio | DownloadMode::Songs => {
            push_lit(&mut args, "-f");
            push_lit(&mut args, "bestaudio/best");
            push_lit(&mut args, "-x");
            push_lit(&mut args, "--audio-format");
            push_lit(&mut args, "mp3");
            push_lit(&mut args, "--audio-quality");
            match &request.audio_quality {
                Some(q) => push_copy(&mut args, q),
                None => push_lit(&mut args, "0"),
            }
            let songs = match request.mode {
                DownloadMode::Songs => true,
                _ => false,
            };
            if request.embed_thumbnail || settings.embed_thumbnail || songs {
                push_lit(&mut args, "--embed-thumbnail");
                push_lit(&mut args, "--add-metadata");
            }
        },
    }
    assert(string_views(args@) =~= base + mode_args(*request, *settings));
    push_copy(&mut args, &request.url);
    assert(string_views(args@) =~= download_args(*request, temp@, *settings));
    Ok(args)
}


/// How many low bits an `f64` loses when it holds `n`: an `f64` keeps 53 significant bits.
pub open spec fn f64_excess(n: nat) -> nat {
    if n >= 0x8000_0000_0000_0000 {
        11
    } else if n >= 0x4000_0000_0000_0000 {
        10
    } else if n >= 0x2000_0000_0000_0000 {
        9
    } else if n >= 0x1000_0000_0000_0000 {
        8
    } else if n >= 0x0800_0000_0000_0000 {
        7
    } else if n >= 0x0400_0000_0000_0000 {
        6
    } else if n >= 0x0200_0000_0000_0000 {
        5
    } else if n >= 0x0100_0000_0000_0000 {
        4
    } else if n >= 0x0080_0000_0000_0000 {
        3
    } else if n >= 0x0040_0000_0000_0000 {
        2
    } else if n >= 0x0020_0000_0000_0000 {
        1
    } else {
        0
    }
}

pub open spec fn small_pow2(e: nat) -> nat
    decreases e,
{
    if e == 0 {
        1
    } else {
        2 * small_pow2((e - 1) as nat)
    }
}

/// Rounds half to even on the kept bits of `n`.
pub open spec fn round_bits(n: nat, p: nat) -> nat {
    let q = n / p;
    let r = n % p;
    let half = p / 2;
    let q2 = if r > half || (r == half && q % 2 == 1) {
        q + 1
    } else {
        q
    };
    q2 * p
}

/// The value `n as f64` holds: `n` rounded to 53 significant bits, ties to even.
pub open spec fn f64_round(n: nat) -> nat {
    if f64_excess(n) == 0 {
        n
    } else {
        round_bits(n, small_pow2(f64_excess(n)))
    }
}

/// The binary unit a byte count is shown in.
pub open spec fn unit_of(x: nat) -> nat {
    if x >= 0x100_0000_0000 {
        4
    } else if x >= 0x4000_0000 {
        3
    } else if x >= 0x10_0000 {
        2
    } else if x >= 0x400 {
        1
    } else {
        0
    }
}

pub open spec fn unit_size(u: nat) -> nat {
    if u == 4 {
        0x100_0000_0000
    } else if u == 3 {
        0x4000_0000
    } else if u == 2 {
        0x10_0000
    } else if u == 1 {
        0x400
    } else {
        1
    }
}

pub open spec fn unit_name(u: nat) -> Seq<char> {
    if u == 4 {
        "TiB"@
    } else if u == 3 {
        "GiB"@
    } else if u == 2 {
        "MiB"@
    } else if u == 1 {
        "KiB"@
    } else {
        "B"@
    }
}

/// `value` scaled by ten and rounded half to even: the tenths that `{:.1}` prints.
pub open spec fn tenths(x: nat, d: nat) -> nat {
    let t = 10 * x;
    let q = t / d;
    let rem = t % d;
    if 2 * rem > d || (2 * rem == d && q % 2 == 1) {
        q + 1
    } else {
        q
    }
}

/// A byte count for people: below a KiB the exact count, else the `f64`
/// quotient by the largest unit up to TiB that it reaches, with one decimal.
pub open spec fn spec_format_bytes(bytes: nat) -> Seq<char> {
    let x = f64_round(bytes);
    let u = unit_of(x);
    if u == 0 {
        decimal(bytes) + " B"@
    } else {
        let q = tenths(x, unit_size(u));
        decimal(q / 10) + seq!['.', digit_char(q % 10), ' '] + unit_name(u)
    }
}

fn excess_pow(n: u128) -> (r: u128)
    requires
        n <= u64::MAX,
    ensures
        r == small_pow2(f64_excess(n as nat)),
        r >= 1,
        r <= 2048,
{
    reveal_with_fuel(small_pow2, 12);
    assert(small_pow2(0) == 1);
    assert(small_pow2(1) == 2);
    assert(small_pow2(2) == 4);
    assert(small_pow2(3) == 8);
    assert(small_pow2(4) == 16);
    assert(small_pow2(5) == 32);
    assert(small_pow2(6) == 64);
    assert(small_pow2(7) == 128);
    assert(small_pow2(8) == 256);
    assert(small_pow2(9) == 512);
    assert(small_pow2(10) == 1024);
    assert(small_pow2(11) == 2048);
    if n >= 0x8000_0000_0000_0000 {
        2048
    } else if n >= 0x4000_0000_0000_0000 {
        1024
    } else if n >= 0x2000_0000_0000_0000 {
        512
    } else if n >= 0x1000_0000_0000_0000 {
        256
    } else if n >= 0x0800_0000_0000_0000 {
        128
    } else if n >= 0x0400_0000_0000_0000 {
        64
    } else if n >= 0x0200_0000_0000_0000 {
        32
    } else if n >= 0x0100_0000_0000_0000 {
        16
    } else if n >= 0x0080_0000_0000_0000 {
        8
    } else if n >= 0x0040_0000_0000_0000 {
        4
    } else if n >= 0x0020_0000_0000_0000 {
        2
    } else {
        1
    }
}

fn as_f64_value(n: u64) -> (r: u128)
    ensures
        r == f64_round(n as nat),
        r <= 0x1_0000_0000_0000_0800,
{
    let v = n as u128;
    let p = excess_pow(v);
    if p == 1 {
        return v;
    }
    let q = v / p;
    let rem = v % p;
    let half = p / 2;
    let q2 = if rem > half || (rem == half && q % 2 == 1) {
        q + 1
    } else {
        q
    };
    assert(q2 * p <= v + p) by (nonlinear_arith)
        requires
            q == v / p,
            p >= 1,
            q2 <= q + 1,
    ;
    q2 * p
}

/// Renders a byte count the way the download manager reports free and needed space.
pub fn format_bytes(bytes: u64) -> (r: String)
    ensures
        r@ == spec_format_bytes(bytes as nat),
{
    let x = as_f64_value(bytes);
    let (u, d, name): (u64, u128, &str) = if x >= 0x100_0000_0000 {
        (4, 0x100_0000_0000, "TiB")
    } else if x >= 0x4000_0000 {
        (3, 0x4000_0000, "GiB")
    } else if x >= 0x10_0000 {
        (2, 0x10_0000, "MiB")
    } else if x >= 0x400 {
        (1, 0x400, "KiB")
    } else {
        (0, 1, "B")
    };
    if u == 0 {
        let mut r = chars_string(&u64_decimal(bytes));
        r.append(" B");
        return r;
    }
    let t = 10 * x;
    let q = t / d;
    let rem = t % d;
    let q2 = if 2 * rem > d || (2 * rem == d && q % 2 == 1) {
        q + 1
    } else {
        q
    };
    assert(q2 / 10 <= u64::MAX) by (nonlinear_arith)
        requires
            q == t / d,
            d >= 0x400,
            t <= 10 * 0x1_0000_0000_0000_0800,
            q2 <= q + 1,
    ;
    let whole = (q2 / 10) as u64;
    let tenth = (q2 % 10) as u64;
    let mut r = chars_string(&u64_decimal(whole));
    r.push('.');
    r.push(digit(tenth));
    r.push(' ');
    r.append(name);
    r
}

/// The yt-dlp error texts that mean the disk is full.
pub open spec fn disk_full_needles() -> Seq<Seq<char>> {
    seq![
        "no space left on device"@,
        "disk quota exceeded"@,
        "insufficient space"@,
        "out of disk space"@,
        "not enough space"@,
    ]
}

/// A process error text reports a full disk (in any ASCII case).
pub open spec fn spec_is_disk_full(text: Seq<char>) -> bool {
    exists|i: int| 0 <= i < 5 && crate::text::contains(crate::text::lower(text), #[trigger] disk_full_needles()[i])
}

pub fn is_disk_full_error(text: &str) -> (r: bool)
    ensures
        r == spec_is_disk_full(text@),
{
    let lower = crate::text::to_ascii_lowercase(&str_chars(text));
    let a = crate::text::vec_contains(&lower, &str_chars("no space left on device"));
    let b = crate::text::vec_contains(&lower, &str_chars("disk quota exceeded"));
    let c = crate::text::vec_contains(&lower, &str_chars("insufficient space"));
    let d = crate::text::vec_contains(&lower, &str_chars("out of disk space"));
    let e = crate::text::vec_contains(&lower, &str_chars("not enough space"));
    proof {
        let n = disk_full_needles();
        assert(n[0] == "no space left on device"@);
        assert(n[1] == "disk quota exceeded"@);
        assert(n[2] == "insufficient space"@);
        assert(n[3] == "out of disk space"@);
        assert(n[4] == "not enough space"@);
        if a || b || c || d || e {
            if a {
                assert(crate::text::contains(crate::text::lower(text@), n[0]));
            } else if b {
                assert(crate::text::contains(crate::text::lower(text@), n[1]));
            } else if c {
                assert(crate::text::contains(crate::text::lower(text@), n[2]));
            } else if d {
                assert(crate::text::contains(crate::text::lower(text@), n[3]));
            } else {
                assert(crate::text::contains(crate::text::lower(text@), n[4]));
            }
        }
    }
    a || b || c || d || e
}

/// A yt-dlp progress line split into its fields. The percentage stays text,
/// one that `f32` is known to parse: the caller reads it as the `f32` the
/// frontend shows.
#[derive(Debug, Clone)]
pub struct ProgressLine {
    pub percent: String,
    pub speed: Option<String>,
    pub eta: Option<String>,
    pub bytes: Option<u64>,
}

pub open spec fn spec_normalise(v: Seq<char>) -> Option<Seq<char>> {
    let t = trim(v);
    if t.len() == 0 || t == "N/A"@ {
        None
    } else {
        Some(at_most(t, 32))
    }
}

/// The fields of a line that starts with `download:` and has at least four
/// `|`-separated parts: the percentage without its `%` signs, speed and time
/// left as [`spec_normalise`] reads them, and the byte count where it is a number.
pub open spec fn spec_parse_progress(line: Seq<char>) -> Option<
    (Seq<char>, Option<Seq<char>>, Option<Seq<char>>, Option<u64>),
> {
    if !starts_with(line, "download:"@) {
        None
    } else {
        let v = split(line.skip("download:"@.len() as int), '|');
        if v.len() < 4 || !float_literal(strip_trailing(trim(v[0]), '%')) {
            None
        } else {
            Some(
                (
                    strip_trailing(trim(v[0]), '%'),
                    spec_normalise(v[1]),
                    spec_normalise(v[2]),
                    parse_u64(trim(v[3])),
                ),
            )
        }
    }
}

pub open spec fn progress_view(r: Option<ProgressLine>) -> Option<
    (Seq<char>, Option<Seq<char>>, Option<Seq<char>>, Option<u64>),
> {
    match r {
        Some(p) => Some((p.percent@, opt_view(p.speed), opt_view(p.eta), p.bytes)),
        None => None,
    }
}

fn normalise_chars(v: &Vec<char>) -> (r: Option<String>)
    ensures
        opt_view(r) == spec_normalise(v@),
{
    let t = trim_chars(v);
    if t.len() == 0 || chars_eq(&t, &str_chars("N/A")) {
        return None;
    }
    Some(chars_string(&at_most_chars(&t, 32)))
}

/// A speed or time-left field: trimmed, `None` when empty or `N/A`, and at
/// most 32 characters.
pub fn normalise_progress_text(value: &str) -> (r: Option<String>)
    ensures
        opt_view(r) == spec_normalise(value@),
{
    normalise_chars(&str_chars(value))
}

/// Reads one line of yt-dlp's progress template output: `None` unless it
/// starts with `download:`, has four `|`-separated fields, and its percentage
/// (trimmed, trailing `%` signs dropped) is text that `f32` parses.
pub fn parse_progress(line: &str) -> (r: Option<ProgressLine>)
    ensures
        progress_view(r) == spec_parse_progress(line@),
{
    let chars = str_chars(line);
    let prefix = str_chars("download:");
    if !vec_starts_with(&chars, &prefix) {
        return None;
    }
    let values = split_chars(&suffix_chars(&chars, prefix.len()), '|');
    if values.len() < 4 {
        return None;
    }
    proof {
        assert(views(values@)[0] == values@[0]@);
        assert(views(values@)[1] == values@[1]@);
        assert(views(values@)[2] == values@[2]@);
        assert(views(values@)[3] == values@[3]@);
    }
    let percent_chars = strip_trailing_chars(&trim_chars(&values[0]), '%');
    if !is_float_literal(&percent_chars) {
        return None;
    }
    let percent = chars_string(&percent_chars);
    let speed = normalise_chars(&values[1]);
    let eta = normalise_chars(&values[2]);
    let bytes = parse_u64_chars(&trim_chars(&values[3]));
    Some(ProgressLine { percent, speed, eta, bytes })
}

/// The first line that, trimmed, starts with `https://`; trimmed.
pub open spec fn first_https(ls: Seq<Seq<char>>) -> Option<Seq<char>>
    decreases ls.len(),
{
    if ls.len() == 0 {
        None
    } else if starts_with(trim(ls[0]), "https://"@) {
        Some(trim(ls[0]))
    } else {
        first_https(ls.drop_first())
    }
}

/// What [`parse_player_source`] answers for yt-dlp's `--get-url` output.
pub open spec fn spec_parse_player_source(stdout: Seq<char>) -> Result<
    Seq<char>,
    (AppErrorKind, Seq<char>),
> {
    match first_https(lines(stdout)) {
        None => Err((AppErrorKind::Process, "yt-dlp returned no playable media URL"@)),
        Some(source) => if byte_len(source) > 16384 || has_control(source) {
            Err((AppErrorKind::Process, "yt-dlp returned an invalid media URL"@))
        } else {
            match url_parse(source) {
                None => Err((AppErrorKind::Process, "yt-dlp returned an invalid media URL"@)),
                Some(u) => if u.scheme != "https"@ || u.host is None {
                    Err((AppErrorKind::Process, "yt-dlp returned an unsafe media URL"@))
                } else {
                    Ok(u.serialized)
                },
            }
        },
    }
}

pub open spec fn string_result_view(r: Result<String, AppError>) -> Result<
    Seq<char>,
    (AppErrorKind, Seq<char>),
> {
    match r {
        Ok(s) => Ok(s@),
        Err(e) => Err(e@),
    }
}

fn first_https_line(ls: &Vec<Vec<char>>) -> (r: Option<Vec<char>>)
    ensures
        match r {
            Some(t) => first_https(views(ls@)) == Some(t@),
            None => first_https(views(ls@)) is None,
        },
{
    let https = str_chars("https://");
    let mut i: usize = 0;
    assert(views(ls@).skip(0) =~= views(ls@));
    while i < ls.len()
        invariant
            i <= ls@.len(),
            https@ == "https://"@,
            first_https(views(ls@)) == first_https(views(ls@).skip(i as int)),
        decreases ls@.len() - i,
    {
        let t = trim_chars(&ls[i]);
        proof {
            assert(views(ls@).skip(i as int)[0] == ls@[i as int]@);
            assert(views(ls@).skip(i as int).drop_first() =~= views(ls@).skip(i + 1));
        }
        if vec_starts_with(&t, &https) {
            return Some(t);
        }
        i = i + 1;
    }
    assert(views(ls@).skip(ls@.len() as int) =~= Seq::<Seq<char>>::empty());
    None
}

/// Picks the media URL out of yt-dlp's `--get-url` output: only an HTTPS URL
/// with a host is played.
pub fn parse_player_source(stdout: &str) -> (r: Result<String, AppError>)
    ensures
        string_result_view(r) == spec_parse_player_source(stdout@),
{
    let ls = lines_chars(&str_chars(stdout));
    let source = match first_https_line(&ls) {
        Some(t) => t,
        None => {
            return Err(AppError::Process(String::from_str("yt-dlp returned no playable media URL")));
        },
    };
    if utf8_byte_len(&source) > 16384 || any_control(&source) {
        return Err(AppError::Process(String::from_str("yt-dlp returned an invalid media URL")));
    }
    let text = chars_string(&source);
    let parsed = match parse_url(text.as_str()) {
        Some(u) => u,
        None => {
            return Err(AppError::Process(String::from_str("yt-dlp returned an invalid media URL")));
        },
    };
    if !chars_eq(&str_chars(parsed.scheme.as_str()), &str_chars("https")) || parsed.host.is_none() {
        return Err(AppError::Process(String::from_str("yt-dlp returned an unsafe media URL")));
    }
    Ok(parsed.serialized)
}

/// The words found so far and the word being read, scanning `s` the way
/// `split_whitespace` does.
pub open spec fn scan_words(s: Seq<char>) -> (Seq<Seq<char>>, Seq<char>)
    decreases s.len(),
{
    if s.len() == 0 {
        (Seq::<Seq<char>>::empty(), Seq::<char>::empty())
    } else {
        let p = scan_words(s.drop_last());
        if is_whitespace(s.last()) {
            if p.1.len() > 0 {
                (p.0.push(p.1), Seq::<char>::empty())
            } else {
                p
            }
        } else {
            (p.0, p.1.push(s.last()))
        }
    }
}

/// The whitespace-separated words of a text, as `split_whitespace` yields them.
pub open spec fn words(s: Seq<char>) -> Seq<Seq<char>> {
    let p = scan_words(s);
    if p.1.len() > 0 {
        p.0.push(p.1)
    } else {
        p.0
    }
}

/// Words joined by single spaces.
pub open spec fn join_words(ws: Seq<Seq<char>>) -> Seq<char>
    decreases ws.len(),
{
    if ws.len() == 0 {
        Seq::<char>::empty()
    } else if ws.len() == 1 {
        ws[0]
    } else {
        join_words(ws.drop_last()) + " "@ + ws.last()
    }
}

pub open spec fn redact_word(w: Seq<char>) -> Seq<char> {
    if starts_with(w, "http://"@) || starts_with(w, "https://"@) {
        "[URL redacted]"@
    } else {
        w
    }
}

/// A process diagnostic fit to show: words rejoined by single spaces, every
/// word that is an HTTP(S) URL replaced, at most 1000 characters.
pub open spec fn spec_safe_diagnostic(v: Seq<char>) -> Seq<char> {
    at_most(join_words(words(v).map_values(|w: Seq<char>| redact_word(w))), 1000)
}

fn split_words(v: &Vec<char>) -> (r: Vec<Vec<char>>)
    ensures
        views(r@) == words(v@),
{
    let mut done: Vec<Vec<char>> = Vec::new();
    let mut cur: Vec<char> = Vec::new();
    let mut i: usize = 0;
    assert(v@.take(0) =~= Seq::<char>::empty());
    while i < v.len()
        invariant
            i <= v@.len(),
            (views(done@), cur@) == scan_words(v@.take(i as int)),
        decreases v@.len() - i,
    {
        proof {
            assert(v@.take(i + 1).drop_last() =~= v@.take(i as int));
            assert(v@.take(i + 1).last() == v@[i as int]);
        }
        let c = v[i];
        if char_is_whitespace(c) {
            if cur.len() > 0 {
                let ghost before = done@;
                done.push(cur);
                assert(views(done@) =~= views(before).push(cur@));
                cur = Vec::new();
            }
        } else {
            cur.push(c);
        }
        i = i + 1;
    }
    assert(v@.take(v@.len() as int) =~= v@);
    if cur.len() > 0 {
        let ghost before = done@;
        done.push(cur);
        assert(views(done@) =~= views(before).push(cur@));
    }
    done
}

fn redact_word_chars(w: &Vec<char>) -> (r: Vec<char>)
    ensures
        r@ == redact_word(w@),
{
    if vec_starts_with(w, &str_chars("http://")) || vec_starts_with(w, &str_chars("https://")) {
        str_chars("[URL redacted]")
    } else {
        w.clone()
    }
}

/// Shortens a yt-dlp diagnostic for display and strips the URLs out of it.
pub fn safe_diagnostic(value: &str) -> (r: String)
    ensures
        r@ == spec_safe_diagnostic(value@),
{
    let ws = split_words(&str_chars(value));
    let ghost red = views(ws@).map_values(|w: Seq<char>| redact_word(w));
    let mut out: Vec<char> = Vec::new();
    let mut k: usize = 0;
    assert(red.take(0) =~= Seq::<Seq<char>>::empty());
    while k < ws.len()
        invariant
            k <= ws@.len(),
            red == views(ws@).map_values(|w: Seq<char>| redact_word(w)),
            out@ == join_words(red.take(k as int)),
        decreases ws@.len() - k,
    {
        let w = redact_word_chars(&ws[k]);
        proof {
            assert(red.take(k + 1).drop_last() =~= red.take(k as int));
            assert(red.take(k + 1).last() == w@);
        }
        let ghost pre = out@;
        if k > 0 {
            out.push(' ');
        }
        let mut j: usize = 0;
        let ghost base = out@;
        while j < w.len()
            invariant
                j <= w@.len(),
                out@ == base + w@.take(j as int),
            decreases w@.len() - j,
        {
            out.push(w[j]);
            j = j + 1;
            assert(out@ =~= base + w@.take(j as int));
        }
        assert(w@.take(w@.len() as int) =~= w@);
        proof {
            if k > 0 {
                reveal_strlit(" ");
                assert(base =~= pre + " "@);
                assert(base =~= join_words(red.take(k as int)) + " "@);
            } else {
                assert(base =~= Seq::<char>::empty());
            }
            assert(out@ =~= join_words(red.take(k + 1)));
        }
        k = k + 1;
    }
    assert(red.take(ws@.len() as int) =~= red);
    chars_string(&at_most_chars(&out, 1000))
}

/// The size yt-dlp reported for the whole download, if any.
pub fn metadata_size(value: &InspectResult) -> (r: Option<u64>)
    ensures
        r == value.size_bytes,
{
    value.size_bytes
}

/// The free space a download of `size` bytes asks for: its size and a
/// twentieth more, saturating.
pub open spec fn spec_needed_space(size: u64) -> u64 {
    if size + size / 20 > u64::MAX {
        u64::MAX
    } else {
        (size + size / 20) as u64
    }
}

pub fn needed_space(size: u64) -> (r: u64)
    ensures
        r == spec_needed_space(size),
{
    size.saturating_add(size / 20)
}

/// `Some(free)` when the free space found falls short of what is needed.
pub fn insufficient_disk_space(free: u64, needed_bytes: u64) -> (r: Option<u64>)
    ensures
        r == if free < needed_bytes {
            Some(free)
        } else {
            None::<u64>
        },
{
    if free < needed_bytes {
        Some(free)
    } else {
        None
    }
}

pub open spec fn spec_space_error(size: u64, free: u64, destination: Seq<char>) -> (AppErrorKind, Seq<char>) {
    (
        AppErrorKind::Storage,
        "not enough free disk space: need about "@ + spec_format_bytes(size as nat) + ", only "@
            + spec_format_bytes(free as nat) + " free on "@ + destination,
    )
}

/// The error a download gets when the destination lacks the room it needs.
pub fn space_error(size: u64, free: u64, destination: &str) -> (r: AppError)
    ensures
        r@ == spec_space_error(size, free, destination@),
{
    let mut m = String::from_str("not enough free disk space: need about ");
    m.append(format_bytes(size).as_str());
    m.append(", only ");
    m.append(format_bytes(free).as_str());
    m.append(" free on ");
    m.append(destination);
    AppError::Storage(m)
}

/// The file name stem a finished download is saved under.
pub fn download_stem(channel: &str, title: &str) -> (r: String)
    ensures
        r@ == spec_sanitize_filename(channel@ + " - "@ + title@, "yood-download"@, 180),
{
    let mut joined = String::from_str(channel);
    joined.append(" - ");
    joined.append(title);
    sanitize_filename(joined.as_str(), "yood-download", 180)
}

/// The `attempt`-th name tried for a finished download: `stem.ext`, then
/// `stem (1).ext`, `stem (2).ext`, and so on.
pub open spec fn spec_target_name(stem: Seq<char>, extension: Seq<char>, attempt: nat) -> Seq<char> {
    if attempt == 0 {
        stem + "."@ + extension
    } else {
        stem + " ("@ + decimal(attempt) + ")."@ + extension
    }
}

pub fn target_file_name(stem: &str, extension: &str, attempt: u32) -> (r: String)
    ensures
        r@ == spec_target_name(stem@, extension@, attempt as nat),
{
    let mut r = String::from_str(stem);
    if attempt == 0 {
        r.append(".");
    } else {
        r.append(" (");
        r.append(chars_string(&u64_decimal(attempt as u64)).as_str());
        r.append(").");
    }
    r.append(extension);
    r
}

/// The name used once ten thousand numbered names are all taken.
pub fn fallback_file_name(stem: &str, unique: &str, extension: &str) -> (r: String)
    ensures
        r@ == stem@ + "-"@ + unique@ + "."@ + extension@,
{
    let mut r = String::from_str(stem);
    r.append("-");
    r.append(unique);
    r.append(".");
    r.append(extension);
    r
}

/// What to do with the name of the current attempt.
#[derive(Debug, Clone, Copy, PartialEq, Eq, Structural)]
pub enum TargetStep {
    /// Save under this name.
    Take,
    /// The name is taken: try this attempt next.
    Next(u32),
    /// Every numbered name is taken: use [`fallback_file_name`].
    Fallback,
}

/// What to do with the name of attempt `attempt`, given whether a file of
/// that name exists.
pub open spec fn spec_target_step(attempt: nat, overwrite: bool, taken: bool) -> TargetStep {
    if (attempt == 0 && overwrite) || !taken {
        TargetStep::Take
    } else if attempt + 1 < 10000 {
        TargetStep::Next((attempt + 1) as u32)
    } else {
        TargetStep::Fallback
    }
}

/// Decides on the name of attempt `attempt`, given whether a file of that
/// name exists: the first name is taken as is when overwriting, any name that
/// is free is taken, and numbering stops before ten thousand.
pub fn next_target_step(attempt: u32, overwrite: bool, taken: bool) -> (r: TargetStep)
    requires
        attempt < 10000,
    ensures
        r == spec_target_step(attempt as nat, overwrite, taken),
{
    if (attempt == 0 && overwrite) || !taken {
        TargetStep::Take
    } else if attempt + 1 < 10000 {
        TargetStep::Next(attempt + 1)
    } else {
        TargetStep::Fallback
    }
}

/// The attempt a search for a target name settles on when it starts at
/// `attempt` and asks [`spec_target_step`] about each name in turn, `taken(k)`
/// telling whether the name of attempt `k` exists; `None` where it runs out
/// of numbered names and falls back to a unique one.
pub open spec fn target_walk(attempt: nat, overwrite: bool, taken: spec_fn(nat) -> bool) -> Option<nat>
    decreases 10000 - attempt,
{
    if attempt >= 10000 {
        None
    } else {
        match spec_target_step(attempt, overwrite, taken(attempt)) {
            TargetStep::Take => Some(attempt),
            TargetStep::Next(n) => if n > attempt {
                target_walk(n as nat, overwrite, taken)
            } else {
                None
            },
            TargetStep::Fallback => None,
        }
    }
}

proof fn lemma_target_walk_from(a: nat, taken: spec_fn(nat) -> bool)
    requires
        a <= 10000,
        forall|j: nat| j < a ==> #[trigger] taken(j),
    ensures
        match target_walk(a, false, taken) {
            Some(k) => a <= k < 10000 && !taken(k) && forall|j: nat| j < k ==> #[trigger] taken(j),
            None => forall|j: nat| j < 10000 ==> #[trigger] taken(j),
        },
    decreases 10000 - a,
{
    if a < 10000 && taken(a) {
        if a + 1 < 10000 {
            assert forall|j: nat| j < a + 1 implies #[trigger] taken(j) by {
                if j < a {
                } else {
                    assert(j == a);
                }
            }
            lemma_target_walk_from(a + 1, taken);
        } else {
            assert forall|j: nat| j < 10000 implies #[trigger] taken(j) by {
                if j < a {
                } else {
                    assert(j == a);
                }
            }
        }
    }
}

/// A finished download is saved under the first free name: with overwriting,
/// the plain name; else the plain name if it is free, or else the first of
/// `stem (1).ext`, `stem (2).ext`, ... that is free, every name before it being
/// taken; only when all ten thousand names are taken does the search fall back.
pub proof fn target_is_the_first_free_name(overwrite: bool, taken: spec_fn(nat) -> bool)
    ensures
        overwrite ==> target_walk(0, overwrite, taken) == Some(0nat),
        !overwrite ==> match target_walk(0, overwrite, taken) {
            Some(k) => k < 10000 && !taken(k) && forall|j: nat| j < k ==> #[trigger] taken(j),
            None => forall|j: nat| j < 10000 ==> #[trigger] taken(j),
        },
{
    if !overwrite {
        lemma_target_walk_from(0, taken);
    }
}

/// Whether the name of attempt `k` for `stem` and `extension` is among the
/// existing names.
pub open spec fn name_taken(
    stem: Seq<char>,
    extension: Seq<char>,
    existing: Set<Seq<char>>,
) -> spec_fn(nat) -> bool {
    |k: nat| existing.contains(spec_target_name(stem, extension, k))
}

/// The search over a folder whose file names are `existing` settles on the
/// base name `stem.ext` when overwriting; otherwise on the first of `stem.ext`,
/// `stem (1).ext`, ... up to `stem (9999).ext` that is not an existing name,
/// every one before it existing; and only when all are taken on none, which
/// sends the download to a uniquely named fallback.
pub proof fn target_is_the_first_free_file_name(
    stem: Seq<char>,
    extension: Seq<char>,
    existing: Set<Seq<char>>,
    overwrite: bool,
)
    ensures
        overwrite ==> target_walk(0, overwrite, name_taken(stem, extension, existing)) == Some(
            0nat,
        ) && spec_target_name(stem, extension, 0) == stem + "."@ + extension,
        !overwrite ==> match target_walk(0, overwrite, name_taken(stem, extension, existing)) {
            Some(k) => k < 10000 && !existing.contains(spec_target_name(stem, extension, k))
                && forall|j: nat|
                j < k ==> existing.contains(#[trigger] spec_target_name(stem, extension, j)),
            None => forall|j: nat|
                j < 10000 ==> existing.contains(#[trigger] spec_target_name(stem, extension, j)),
        },
{
    let taken = name_taken(stem, extension, existing);
    target_is_the_first_free_name(overwrite, taken);
    if !overwrite {
        match target_walk(0, overwrite, taken) {
            Some(k) => {
                assert forall|j: nat| j < k implies existing.contains(
                    #[trigger] spec_target_name(stem, extension, j),
                ) by {
                    assert(taken(j));
                }
            },
            None => {
                assert forall|j: nat| j < 10000 implies existing.contains(
                    #[trigger] spec_target_name(stem, extension, j),
                ) by {
                    assert(taken(j));
                }
            },
        }
    }
}

/// A directory entry left in a download's temporary directory.
#[derive(Debug, Clone)]
pub struct MediaCandidate {
    pub extension: Option<String>,
    pub size: u64,
    pub is_file: bool,
    pub is_symlink: bool,
}

/// Extensions of the side files yt-dlp leaves next to the media.
pub open spec fn is_side_extension(e: Seq<char>) -> bool {
    ||| e == "part"@
    ||| e == "ytdl"@
    ||| e == "vtt"@
    ||| e == "jpg"@
    ||| e == "jpeg"@
    ||| e == "png"@
    ||| e == "webp"@
    ||| e == "json"@
}

/// A regular file that is not a side file.
pub open spec fn is_media(c: MediaCandidate) -> bool {
    &&& c.is_file
    &&& !c.is_symlink
    &&& !(c.extension matches Some(e) && is_side_extension(e@))
}

/// `c[i]` is the media file a download produced: the largest one, and of
/// equally large ones the last.
pub open spec fn is_picked_media(c: Seq<MediaCandidate>, i: int) -> bool {
    &&& 0 <= i < c.len()
    &&& is_media(c[i])
    &&& forall|j: int| 0 <= j < c.len() && is_media(#[trigger] c[j]) ==> c[j].size <= c[i].size
    &&& forall|j: int| i < j < c.len() && is_media(#[trigger] c[j]) ==> c[j].size < c[i].size
}

fn side_extension(e: &String) -> (r: bool)
    ensures
        r == is_side_extension(e@),
{
    let v = str_chars(e.as_str());
    chars_eq(&v, &str_chars("part")) || chars_eq(&v, &str_chars("ytdl")) || chars_eq(
        &v,
        &str_chars("vtt"),
    ) || chars_eq(&v, &str_chars("jpg")) || chars_eq(&v, &str_chars("jpeg")) || chars_eq(
        &v,
        &str_chars("png"),
    ) || chars_eq(&v, &str_chars("webp")) || chars_eq(&v, &str_chars("json"))
}

fn media_entry(c: &MediaCandidate) -> (r: bool)
    ensures
        r == is_media(*c),
{
    if !c.is_file || c.is_symlink {
        return false;
    }
    match &c.extension {
        Some(e) => !side_extension(e),
        None => true,
    }
}

/// Which of the entries left in the temporary directory is the finished
/// media file: `None` when none qualifies.
pub fn pick_media(candidates: &Vec<MediaCandidate>) -> (r: Option<usize>)
    ensures
        match r {
            Some(i) => is_picked_media(candidates@, i as int),
            None => forall|j: int| 0 <= j < candidates@.len() ==> !is_media(#[trigger] candidates@[j]),
        },
{
    let mut best: Option<usize> = None;
    let mut i: usize = 0;
    while i < candidates.len()
        invariant
            i <= candidates@.len(),
            match best {
                Some(b) => b < i && is_media(candidates@[b as int]) && (forall|j: int|
                    0 <= j < i && is_media(#[trigger] candidates@[j]) ==> candidates@[j].size
                        <= candidates@[b as int].size) && (forall|j: int|
                    b < j < i && is_media(#[trigger] candidates@[j]) ==> candidates@[j].size
                        < candidates@[b as int].size),
                None => forall|j: int| 0 <= j < i ==> !is_media(#[trigger] candidates@[j]),
            },
        decreases candidates@.len() - i,
    {
        if media_entry(&candidates[i]) {
            match best {
                Some(b) => {
                    if candidates[i].size >= candidates[b].size {
                        best = Some(i);
                    }
                },
                None => {
                    best = Some(i);
                },
            }
        }
        i = i + 1;
    }
    best
}

/// What a failed yt-dlp run is reported as: its last output line that was not
/// progress, or else its error output, read as a full disk or as a process error.
pub open spec fn spec_download_failure(last_line: Seq<char>, stderr_text: Seq<char>) -> (AppErrorKind, Seq<char>) {
    let text = if last_line.len() == 0 {
        stderr_text
    } else {
        last_line
    };
    if spec_is_disk_full(text) {
        (AppErrorKind::Storage, "the destination drive ran out of disk space during the download"@)
    } else {
        (AppErrorKind::Process, spec_safe_diagnostic(text))
    }
}

pub fn download_failure(last_line: &str, stderr_text: &str) -> (r: AppError)
    ensures
        r@ == spec_download_failure(last_line@, stderr_text@),
{
    let text = if str_chars(last_line).len() == 0 {
        stderr_text
    } else {
        last_line
    };
    if is_disk_full_error(text) {
        AppError::Storage(
            String::from_str("the destination drive ran out of disk space during the download"),
        )
    } else {
        AppError::Process(safe_diagnostic(text))
    }
}

/// How a download run ended.
#[derive(Debug)]
pub enum RunOutcome {
    Completed(String),
    Paused,
    Cancelled,
    Failed(AppError),
}

/// The state, error text and output file a run's end leaves on its item.
pub fn finish_outcome(outcome: RunOutcome) -> (r: (
    crate::models::DownloadStatus,
    Option<String>,
    Option<String>,
))
    ensures
        match outcome {
            RunOutcome::Completed(p) => r.0 == crate::models::DownloadStatus::Completed
                && r.1 is None && r.2 == Some(p),
            RunOutcome::Paused => r.0 == crate::models::DownloadStatus::Paused && r.1 is None
                && r.2 is None,
            RunOutcome::Cancelled => r.0 == crate::models::DownloadStatus::Cancelled && r.1 is None
                && r.2 is None,
            RunOutcome::Failed(e) => r.0 == crate::models::DownloadStatus::Failed && (r.1 matches Some(
                m,
            ) && m@ == crate::error::message_of(e@)) && r.2 is None,
        },
{
    match outcome {
        RunOutcome::Completed(p) => (crate::models::DownloadStatus::Completed, None, Some(p)),
        RunOutcome::Paused => (crate::models::DownloadStatus::Paused, None, None),
        RunOutcome::Cancelled => (crate::models::DownloadStatus::Cancelled, None, None),
        RunOutcome::Failed(e) => (crate::models::DownloadStatus::Failed, Some(e.to_string()), None),
    }
}


/// The title a download is logged and named under: yt-dlp's, else
/// `YouTube download`.
pub fn download_title(title: &Option<String>) -> (r: String)
    ensures
        r@ == match title {
            Some(t) => t@,
            None => "YouTube download"@,
        },
{
    match title {
        Some(t) => t.clone(),
        None => String::from_str("YouTube download"),
    }
}

/// The media file a finished run produced, or the failure of a run that
/// produced none.
pub fn media_or_failure(picked: Option<String>) -> (r: Result<String, AppError>)
    ensures
        match picked {
            Some(p) => r == Ok::<String, AppError>(p),
            None => r matches Err(e) && e@ == (
                AppErrorKind::Process,
                "yt-dlp completed without producing a media file"@,
            ),
        },
{
    match picked {
        Some(p) => Ok(p),
        None => Err(AppError::Process(String::from_str("yt-dlp completed without producing a media file"))),
    }
}


/// Subtitles are asked for in the request's own language where it carries a
/// valid tag, and in the configured one only where it carries none or an
/// invalid one: the argument after `--sub-langs` is that language.
pub proof fn request_subtitle_language_wins(r: DownloadRequest, temp: Seq<char>, s: Settings)
    requires
        r.mode == DownloadMode::Video,
        r.subtitles || s.download_subtitles,
    ensures
        download_args(r, temp, s)[24] == "--sub-langs"@,
        forall|l: String|
            r.subtitle_language == Some(l) && valid_subtitle_language(l@) ==> download_args(
                r,
                temp,
                s,
            )[25] == l@,
        (forall|l: String| r.subtitle_language == Some(l) ==> !valid_subtitle_language(l@))
            ==> download_args(r, temp, s)[25] == s.subtitle_language@,
{
    let a = download_args(r, temp, s);
    assert(base_args(temp).len() == 18);
    assert(a[24] == mode_args(r, s)[6]);
    assert(a[25] == mode_args(r, s)[7]);
}

/// A progress line `download:P|S|E|B` (fields without `|`) reads as the
/// percentage from `P`, the speed from `S`, the time left from `E` and the
/// byte count from `B`, in the order of the progress template; it is refused
/// only where `P` is no number.
pub proof fn progress_fields_follow_the_template(
    p: Seq<char>,
    speed: Seq<char>,
    eta: Seq<char>,
    bytes: Seq<char>,
)
    requires
        forall|i: int| 0 <= i < p.len() ==> p[i] != '|',
        forall|i: int| 0 <= i < speed.len() ==> speed[i] != '|',
        forall|i: int| 0 <= i < eta.len() ==> eta[i] != '|',
        forall|i: int| 0 <= i < bytes.len() ==> bytes[i] != '|',
    ensures
        ({
            let line = "download:"@ + p + seq!['|'] + speed + seq!['|'] + eta + seq!['|'] + bytes;
            let percent = strip_trailing(trim(p), '%');
            &&& float_literal(percent) ==> spec_parse_progress(line) == Some(
                (percent, spec_normalise(speed), spec_normalise(eta), parse_u64(trim(bytes))),
            )
            &&& !float_literal(percent) ==> spec_parse_progress(line) is None
        }),
{
    let head = "download:"@;
    let rest = p + seq!['|'] + speed + seq!['|'] + eta + seq!['|'] + bytes;
    let line = head + rest;
    assert(line =~= "download:"@ + p + seq!['|'] + speed + seq!['|'] + eta + seq!['|'] + bytes);
    assert(line.subrange(0, head.len() as int) =~= head);
    assert(line.skip(head.len() as int) =~= rest);
    crate::text::lemma_split_without_sep(p, '|');
    crate::text::lemma_split_without_sep(speed, '|');
    crate::text::lemma_split_without_sep(eta, '|');
    crate::text::lemma_split_without_sep(bytes, '|');
    crate::text::lemma_split_at_sep(p + seq!['|'] + speed + seq!['|'] + eta, bytes, '|');
    crate::text::lemma_split_at_sep(p + seq!['|'] + speed, eta, '|');
    crate::text::lemma_split_at_sep(p, speed, '|');
    let v = split(rest, '|');
    assert(v =~= seq![p, speed, eta, bytes]);
}


/// A video download asks for the request's own format selector, or else the
/// one for its quality (`1080`, `720` and `480` cap the height, `worst` takes
/// the smallest streams, anything else the best), merges into the request's
/// container, adds the subtitle options exactly when the request or the
/// settings ask for subtitles, writes into `temp`, and ends with the URL.
pub proof fn video_args_follow_the_request(r: DownloadRequest, temp: Seq<char>, s: Settings)
    requires
        r.mode == DownloadMode::Video,
    ensures
        ({
            let a = download_args(r, temp, s);
            let sel = a[19];
            &&& a[14] == "--paths"@ && a[15] == temp
            &&& a[18] == "-f"@ && a[20] == "--merge-output-format"@ && a[21] == r.container@
            &&& forall|f: String| r.format_selector == Some(f) ==> sel == f@
            &&& r.format_selector is None && "1080"@ == r.quality@ ==> sel
                == "bestvideo*[height<=1080]+bestaudio/best[height<=1080]"@
            &&& r.format_selector is None && "720"@ == r.quality@ ==> sel
                == "bestvideo*[height<=720]+bestaudio/best[height<=720]"@
            &&& r.format_selector is None && "480"@ == r.quality@ ==> sel
                == "bestvideo*[height<=480]+bestaudio/best[height<=480]"@
            &&& r.format_selector is None && "worst"@ == r.quality@ ==> sel
                == "worstvideo+worstaudio/worst"@
            &&& r.format_selector is None && "1080"@ != r.quality@ && "720"@ != r.quality@
                && "480"@ != r.quality@ && "worst"@ != r.quality@ ==> sel == "bestvideo*+bestaudio/best"@
            &&& (r.subtitles || s.download_subtitles) ==> a.len() == 28 && a[22] == "--write-subs"@
                && a[23] == "--write-auto-subs"@ && a[26] == "--embed-subs"@
            &&& !(r.subtitles || s.download_subtitles) ==> a.len() == 23
            &&& a.last() == r.url@
        }),
{
    let a = download_args(r, temp, s);
    assert(base_args(temp).len() == 18);
    assert(a[19] == video_selector(r));
    reveal_strlit("1080");
    reveal_strlit("720");
    reveal_strlit("480");
    reveal_strlit("worst");
    assert("720"@ != "480"@) by {
        assert("720"@[0] != "480"@[0]);
    }
    assert("worst"@ != "1080"@ && "worst"@ != "720"@ && "worst"@ != "480"@) by {
        assert("worst"@.len() == 5);
    }
    assert("720"@ != "1080"@ && "480"@ != "1080"@) by {
        assert("1080"@.len() == 4);
        assert("720"@.len() == 3);
        assert("480"@.len() == 3);
    }
    let sel = a[19];
    assert(a[14] == "--paths"@ && a[15] == temp);
    assert(a[18] == "-f"@ && a[20] == "--merge-output-format"@ && a[21] == r.container@);
    assert(forall|f: String| r.format_selector == Some(f) ==> sel == f@);
    assert((r.subtitles || s.download_subtitles) ==> a.len() == 28 && a[22] == "--write-subs"@
                && a[23] == "--write-auto-subs"@ && a[26] == "--embed-subs"@);
    assert(!(r.subtitles || s.download_subtitles) ==> a.len() == 23);
    assert(a.last() == r.url@);
    assert(r.format_selector is None && "1080"@ == r.quality@ ==> sel
                == "bestvideo*[height<=1080]+bestaudio/best[height<=1080]"@);
    assert(r.format_selector is None && "720"@ == r.quality@ ==> sel
                == "bestvideo*[height<=720]+bestaudio/best[height<=720]"@);
    assert(r.format_selector is None && "480"@ == r.quality@ ==> sel
                == "bestvideo*[height<=480]+bestaudio/best[height<=480]"@);
    assert(r.format_selector is None && "worst"@ == r.quality@ ==> sel
                == "worstvideo+worstaudio/worst"@);
}

/// An audio or songs download extracts the best audio stream to MP3 at the
/// request's audio quality (`0`, the best, where it names none), embeds the
/// thumbnail and metadata when the request or the settings ask for it and
/// always for songs, writes into `temp`, and ends with the URL.
pub proof fn audio_args_follow_the_request(r: DownloadRequest, temp: Seq<char>, s: Settings)
    requires
        r.mode != DownloadMode::Video,
    ensures
        ({
            let a = download_args(r, temp, s);
            let tagged = r.embed_thumbnail || s.embed_thumbnail || r.mode == DownloadMode::Songs;
            &&& a[14] == "--paths"@ && a[15] == temp
            &&& a[18] == "-f"@ && a[19] == "bestaudio/best"@ && a[20] == "-x"@
            &&& a[21] == "--audio-format"@ && "mp3"@ == a[22] && a[23] == "--audio-quality"@
            &&& forall|q: String| r.audio_quality == Some(q) ==> a[24] == q@
            &&& r.audio_quality is None ==> a[24] == "0"@
            &&& tagged ==> a.len() == 28 && a[25] == "--embed-thumbnail"@ && a[26]
                == "--add-metadata"@
            &&& !tagged ==> a.len() == 26
            &&& a.last() == r.url@
        }),
{
    assert(base_args(temp).len() == 18);
}


/// A failed run is described by yt-dlp's last output line, or by its error
/// output only where that line is empty; a message that says the disk is
/// full (`no space left on device`, `disk quota exceeded`, in any case)
/// becomes a storage error, and anything else a process error.
pub proof fn failures_are_read_from_the_last_line(last_line: Seq<char>, e1: Seq<char>, e2: Seq<char>)
    ensures
        last_line.len() > 0 ==> spec_download_failure(last_line, e1) == spec_download_failure(
            last_line,
            e2,
        ),
        crate::text::contains(crate::text::lower(e1), "no space left on device"@)
            ==> spec_download_failure(Seq::<char>::empty(), e1).0 == AppErrorKind::Storage,
        crate::text::contains(crate::text::lower(e1), "disk quota exceeded"@)
            ==> spec_download_failure(Seq::<char>::empty(), e1).0 == AppErrorKind::Storage,
        !spec_is_disk_full(e1) ==> spec_download_failure(Seq::<char>::empty(), e1).0
            == AppErrorKind::Process,
{
    assert(disk_full_needles()[0] == "no space left on device"@);
    assert(disk_full_needles()[1] == "disk quota exceeded"@);
}

/// The media URL handed to the player is always an HTTPS URL with a host,
/// as the url crate writes it; output with no line starting `https://` is
/// refused as having no playable URL.
pub proof fn player_sources_are_https(stdout: Seq<char>)
    ensures
        spec_parse_player_source(stdout) matches Ok(x) ==> exists|src: Seq<char>|
            #[trigger] url_parse(src) matches Some(u) && u.scheme == "https"@ && u.host is Some
                && u.serialized == x,
        first_https(lines(stdout)) is None ==> spec_parse_player_source(stdout) == Err::<
            Seq<char>,
            (AppErrorKind, Seq<char>),
        >((AppErrorKind::Process, "yt-dlp returned no playable media URL"@)),
{
}

} // verus!
