//! The checks around replacing the bundled yt-dlp with its latest release,
//! and around the account label kept in the system keyring.
use vstd::prelude::*;
use crate::error::{AppError, AppErrorKind};
use crate::text::{any_control, byte_len, has_control, str_chars, utf8_byte_len};

verus! {

/// The most a downloaded yt-dlp may weigh.
pub const MAX_YTDLP_BYTES: u64 = 20971520u64;

/// Where the latest yt-dlp for Linux is downloaded from.
pub fn ytdlp_release_url() -> (r: &'static str)
    ensures
        r@ == "https://github.com/yt-dlp/yt-dlp/releases/latest/download/yt-dlp_linux"@,
{
    "https://github.com/yt-dlp/yt-dlp/releases/latest/download/yt-dlp_linux"
}

/// A release download is read only after a success status and when its
/// announced length, if any, fits the limit.
pub fn check_update_response(success: bool, status: &str, content_length: Option<u64>) -> (r:
    Result<(), AppError>)
    ensures
        !success ==> (r matches Err(e) && e@ == (
            AppErrorKind::Network,
            "yt-dlp update returned "@ + status@,
        )),
        (success && (content_length matches Some(n) && n > MAX_YTDLP_BYTES)) ==> (r matches Err(e)
            && e@ == (AppErrorKind::Network, "yt-dlp update is unexpectedly large"@)),
        (success && !(content_length matches Some(n) && n > MAX_YTDLP_BYTES)) ==> r is Ok,
{
    if !success {
        let mut m = String::from_str("yt-dlp update returned ");
        m.append(status);
        return Err(AppError::Network(m));
    }
    match content_length {
        Some(n) => {
            if n > MAX_YTDLP_BYTES {
                return Err(
                    AppError::Network(String::from_str("yt-dlp update is unexpectedly large")),
                );
            }
        },
        None => {},
    }
    Ok(())
}

/// The bytes received so far after one more chunk, or the error that stops
/// a download grown past the limit.
pub fn add_chunk(total: u64, chunk_len: u64) -> (r: Result<u64, AppError>)
    ensures
        ({
            let t = if total + chunk_len > u64::MAX {
                u64::MAX as int
            } else {
                total + chunk_len
            };
            if t > MAX_YTDLP_BYTES {
                r matches Err(e) && e@ == (
                    AppErrorKind::Network,
                    "yt-dlp update exceeded the size limit"@,
                )
            } else {
                r == Ok::<u64, AppError>(t as u64)
            }
        }),
{
    let t = total.saturating_add(chunk_len);
    if t > MAX_YTDLP_BYTES {
        Err(AppError::Network(String::from_str("yt-dlp update exceeded the size limit")))
    } else {
        Ok(t)
    }
}

/// A staged binary is accepted only as a regular file, not a link.
pub fn validate_staged_binary(is_file: bool, is_symlink: bool) -> (r: Result<(), AppError>)
    ensures
        match r {
            Ok(()) => is_file && !is_symlink,
            Err(e) => !(is_file && !is_symlink) && e@ == (
                AppErrorKind::UnsafePath,
                "staged binary is not a regular file"@,
            ),
        },
{
    if !is_file || is_symlink {
        Err(AppError::UnsafePath(String::from_str("staged binary is not a regular file")))
    } else {
        Ok(())
    }
}

/// The keyring service and account the account label is stored under.
pub fn keyring_entry_names() -> (r: (&'static str, &'static str))
    ensures
        r.0@ == "com.playrood.yood"@,
        r.1@ == "account-hints"@,
{
    ("com.playrood.yood", "account-hints")
}

/// An account label may be stored when it is at most 4096 bytes without
/// control characters.
pub fn check_account_hints(value: &str) -> (r: Result<(), AppError>)
    ensures
        match r {
            Ok(()) => byte_len(value@) <= 4096 && !has_control(value@),
            Err(e) => !(byte_len(value@) <= 4096 && !has_control(value@)) && e@ == (
                AppErrorKind::InvalidInput,
                "invalid account label"@,
            ),
        },
{
    let v = str_chars(value);
    if utf8_byte_len(&v) > 4096 || any_control(&v) {
        Err(AppError::InvalidInput(String::from_str("invalid account label")))
    } else {
        Ok(())
    }
}

} // verus!
