//! The library's error type and the conversions from the errors of the
//! crates and std parts that the library calls.
use vstd::prelude::*;

verus! {

/// Which variant an [`AppError`] is, without its detail text.
#[derive(Debug, Clone, Copy, PartialEq, Eq, Structural)]
pub enum AppErrorKind {
    InvalidInput,
    UnsupportedUrl,
    UnsafePath,
    PermissionDenied,
    NotFound,
    Network,
    Process,
    Configuration,
    Storage,
    Timeout,
    Internal,
}

/// Every failure the application reports to its frontend.
#[derive(Debug, Clone)]
pub enum AppError {
    InvalidInput(String),
    UnsupportedUrl(String),
    UnsafePath(String),
    PermissionDenied(String),
    NotFound(String),
    Network(String),
    Process(String),
    Configuration(String),
    Storage(String),
    Timeout,
    Internal(String),
}

impl View for AppError {
    type V = (AppErrorKind, Seq<char>);

    open spec fn view(&self) -> (AppErrorKind, Seq<char>) {
        match self {
            AppError::InvalidInput(s) => (AppErrorKind::InvalidInput, s@),
            AppError::UnsupportedUrl(s) => (AppErrorKind::UnsupportedUrl, s@),
            AppError::UnsafePath(s) => (AppErrorKind::UnsafePath, s@),
            AppError::PermissionDenied(s) => (AppErrorKind::PermissionDenied, s@),
            AppError::NotFound(s) => (AppErrorKind::NotFound, s@),
            AppError::Network(s) => (AppErrorKind::Network, s@),
            AppError::Process(s) => (AppErrorKind::Process, s@),
            AppError::Configuration(s) => (AppErrorKind::Configuration, s@),
            AppError::Storage(s) => (AppErrorKind::Storage, s@),
            AppError::Timeout => (AppErrorKind::Timeout, Seq::<char>::empty()),
            AppError::Internal(s) => (AppErrorKind::Internal, s@),
        }
    }
}

/// The fixed text that starts the user-facing message of each variant.
pub open spec fn kind_prefix(k: AppErrorKind) -> Seq<char> {
    match k {
        AppErrorKind::InvalidInput => "invalid input: "@,
        AppErrorKind::UnsupportedUrl => "unsupported URL: "@,
        AppErrorKind::UnsafePath => "path is not allowed: "@,
        AppErrorKind::PermissionDenied => "permission denied: "@,
        AppErrorKind::NotFound => "resource not found: "@,
        AppErrorKind::Network => "network error: "@,
        AppErrorKind::Process => "external process failed: "@,
        AppErrorKind::Configuration => "configuration error: "@,
        AppErrorKind::Storage => "storage error: "@,
        AppErrorKind::Timeout => "operation timed out"@,
        AppErrorKind::Internal => "internal error: "@,
    }
}

/// The user-facing message of an error: its variant's prefix, then its detail.
pub open spec fn message_of(e: (AppErrorKind, Seq<char>)) -> Seq<char> {
    kind_prefix(e.0) + e.1
}

/// How std classifies an I/O failure, as far as the library distinguishes it.
#[derive(Debug, Clone, Copy, PartialEq, Eq, Structural)]
pub enum IoErrorClass {
    PermissionDenied,
    NotFound,
    Other,
}

pub open spec fn io_error_view(class: IoErrorClass, text: Seq<char>) -> (AppErrorKind, Seq<char>) {
    match class {
        IoErrorClass::PermissionDenied => (AppErrorKind::PermissionDenied, text),
        IoErrorClass::NotFound => (AppErrorKind::NotFound, text),
        IoErrorClass::Other => (AppErrorKind::Storage, text),
    }
}

impl AppError {
    pub fn kind(&self) -> (r: AppErrorKind)
        ensures
            r == self@.0,
    {
        match self {
            AppError::InvalidInput(_) => AppErrorKind::InvalidInput,
            AppError::UnsupportedUrl(_) => AppErrorKind::UnsupportedUrl,
            AppError::UnsafePath(_) => AppErrorKind::UnsafePath,
            AppError::PermissionDenied(_) => AppErrorKind::PermissionDenied,
            AppError::NotFound(_) => AppErrorKind::NotFound,
            AppError::Network(_) => AppErrorKind::Network,
            AppError::Process(_) => AppErrorKind::Process,
            AppError::Configuration(_) => AppErrorKind::Configuration,
            AppError::Storage(_) => AppErrorKind::Storage,
            AppError::Timeout => AppErrorKind::Timeout,
            AppError::Internal(_) => AppErrorKind::Internal,
        }
    }

    /// The user-facing message, as the frontend shows it.
    pub fn to_string(&self) -> (r: String)
        ensures
            r@ == message_of(self@),
    {
        let (prefix, detail): (&str, Option<&String>) = match self {
            AppError::InvalidInput(s) => ("invalid input: ", Some(s)),
            AppError::UnsupportedUrl(s) => ("unsupported URL: ", Some(s)),
            AppError::UnsafePath(s) => ("path is not allowed: ", Some(s)),
            AppError::PermissionDenied(s) => ("permission denied: ", Some(s)),
            AppError::NotFound(s) => ("resource not found: ", Some(s)),
            AppError::Network(s) => ("network error: ", Some(s)),
            AppError::Process(s) => ("external process failed: ", Some(s)),
            AppError::Configuration(s) => ("configuration error: ", Some(s)),
            AppError::Storage(s) => ("storage error: ", Some(s)),
            AppError::Timeout => ("operation timed out", None),
            AppError::Internal(s) => ("internal error: ", Some(s)),
        };
        let mut r = String::from_str(prefix);
        match detail {
            Some(s) => r.append(s.as_str()),
            None => {
                assert(r@ + Seq::<char>::empty() =~= r@);
            },
        }
        r
    }

    /// The error an I/O failure of the given class and text becomes.
    pub fn from_io_class(class: IoErrorClass, text: String) -> (r: AppError)
        ensures
            r@ == io_error_view(class, text@),
    {
        match class {
            IoErrorClass::PermissionDenied => AppError::PermissionDenied(text),
            IoErrorClass::NotFound => AppError::NotFound(text),
            IoErrorClass::Other => AppError::Storage(text),
        }
    }
}

/// How `std::io::Error::kind` classifies an error, as far as the library
/// tells kinds apart: `PermissionDenied`, `NotFound`, or any other kind.
pub uninterp spec fn io_error_class(e: std::io::Error) -> IoErrorClass;

/// The text the url crate's `Display` impl writes for a `url::ParseError`.
pub uninterp spec fn url_error_text(e: url::ParseError) -> Seq<char>;

/// The text serde_json's `Display` impl writes for a `serde_json::Error`: its
/// message and, where it has one, the line and column.
pub uninterp spec fn json_error_text(e: serde_json::Error) -> Seq<char>;

/// Tells apart the kinds of `std::io::Error` that the library maps to their
/// own variant with `io::Error::kind`, and renders the error's text. The
/// contract claims the class, which [`io_error_class`] names; the text is
/// left unsaid, as an operating-system error's message can depend on the locale.
#[verifier::external_body]
fn describe_io_error(e: &std::io::Error) -> (r: (IoErrorClass, String))
    ensures
        r.0 == io_error_class(*e),
{
    match e.kind() {
        std::io::ErrorKind::PermissionDenied => (IoErrorClass::PermissionDenied, e.to_string()),
        std::io::ErrorKind::NotFound => (IoErrorClass::NotFound, e.to_string()),
        _ => (IoErrorClass::Other, e.to_string()),
    }
}

/// The messages the url crate's `Display` impl writes for the variants of
/// `url::ParseError`, one text per variant.
pub open spec fn url_error_messages() -> Set<Seq<char>> {
    set![
        "empty host"@,
        "invalid international domain name"@,
        "invalid port number"@,
        "invalid IPv4 address"@,
        "invalid IPv6 address"@,
        "invalid domain character"@,
        "relative URL without a base"@,
        "relative URL with a cannot-be-a-base base"@,
        "a cannot-be-a-base URL doesn’t have a host to set"@,
        "URLs more than 4 GB are not supported"@,
    ]
}

/// Renders a `url::ParseError` through its `Display` impl, which writes one
/// fixed message per variant. The contract claims that the text is the one
/// for this error, which [`url_error_text`] names, and one of those messages.
#[verifier::external_body]
fn describe_url_error(e: &url::ParseError) -> (r: String)
    ensures
        r@ == url_error_text(*e),
        url_error_messages().contains(r@),
{
    e.to_string()
}

/// Renders a `serde_json::Error` through its `Display` impl. The contract
/// claims only that the text is serde_json's, which [`json_error_text`] names.
#[verifier::external_body]
fn describe_json_error(e: &serde_json::Error) -> (r: String)
    ensures
        r@ == json_error_text(*e),
{
    e.to_string()
}

#[verifier::external_type_specification]
#[verifier::external_body]
pub struct ExIoError(std::io::Error);

#[verifier::external_type_specification]
#[verifier::external_body]
pub struct ExUrlParseError(url::ParseError);

#[verifier::external_type_specification]
#[verifier::external_body]
pub struct ExJsonError(serde_json::Error);

impl AppError {
    /// Permission and not-found failures keep their own variant; every other
    /// I/O failure is a storage error.
    pub fn from_io_error(value: std::io::Error) -> (r: AppError)
        ensures
            r@ == io_error_view(io_error_class(value), r@.1),
    {
        let (class, text) = describe_io_error(&value);
        AppError::from_io_class(class, text)
    }

    /// A malformed URL is invalid input, detailed by the url crate's message.
    pub fn from_url_error(value: url::ParseError) -> (r: AppError)
        ensures
            r@ == (AppErrorKind::InvalidInput, url_error_text(value)),
            url_error_messages().contains(r@.1),
    {
        AppError::InvalidInput(describe_url_error(&value))
    }

    /// Malformed JSON is a configuration error.
    pub fn from_json_error(value: serde_json::Error) -> (r: AppError)
        ensures
            r@ == (AppErrorKind::Configuration, json_error_text(value)),
    {
        AppError::Configuration(describe_json_error(&value))
    }
}


impl From<std::io::Error> for AppError {
    /// Same as [`AppError::from_io_error`].
    fn from(value: std::io::Error) -> (r: AppError)
        ensures
            r@ == io_error_view(io_error_class(value), r@.1),
    {
        AppError::from_io_error(value)
    }
}

/// `From`'s own specification states no mapping for this conversion:
/// `obeys_from_spec` is false, and `from_spec` is only the value the trait
/// asks for, not what the conversion gives. The mapping is stated on `from`
/// above and on [`AppError::from_io_error`].
impl vstd::std_specs::convert::FromSpecImpl<std::io::Error> for AppError {
    open spec fn obeys_from_spec() -> bool {
        false
    }

    open spec fn from_spec(v: std::io::Error) -> AppError {
        AppError::Timeout
    }
}

impl From<url::ParseError> for AppError {
    /// Same as [`AppError::from_url_error`].
    fn from(value: url::ParseError) -> (r: AppError)
        ensures
            r@ == (AppErrorKind::InvalidInput, url_error_text(value)),
            url_error_messages().contains(r@.1),
    {
        AppError::from_url_error(value)
    }
}

/// `From`'s own specification states no mapping for this conversion:
/// `obeys_from_spec` is false, and `from_spec` is only the value the trait
/// asks for, not what the conversion gives. The mapping is stated on `from`
/// above and on [`AppError::from_url_error`].
impl vstd::std_specs::convert::FromSpecImpl<url::ParseError> for AppError {
    open spec fn obeys_from_spec() -> bool {
        false
    }

    open spec fn from_spec(v: url::ParseError) -> AppError {
        AppError::Timeout
    }
}

impl From<serde_json::Error> for AppError {
    /// Same as [`AppError::from_json_error`].
    fn from(value: serde_json::Error) -> (r: AppError)
        ensures
            r@ == (AppErrorKind::Configuration, json_error_text(value)),
    {
        AppError::from_json_error(value)
    }
}

/// `From`'s own specification states no mapping for this conversion:
/// `obeys_from_spec` is false, and `from_spec` is only the value the trait
/// asks for, not what the conversion gives. The mapping is stated on `from`
/// above and on [`AppError::from_json_error`].
impl vstd::std_specs::convert::FromSpecImpl<serde_json::Error> for AppError {
    open spec fn obeys_from_spec() -> bool {
        false
    }

    open spec fn from_spec(v: serde_json::Error) -> AppError {
        AppError::Timeout
    }
}

} // verus!
