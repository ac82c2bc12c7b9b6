use yood::error::{AppError, AppErrorKind, IoErrorClass};

#[test]
fn io_errors_map_to_typed_variants() {
    let denied = std::io::Error::from(std::io::ErrorKind::PermissionDenied);
    assert!(matches!(AppError::from(denied), AppError::PermissionDenied(_)));
    let missing = std::io::Error::from(std::io::ErrorKind::NotFound);
    assert!(matches!(AppError::from(missing), AppError::NotFound(_)));
    let other = std::io::Error::new(std::io::ErrorKind::Other, "boom");
    assert!(matches!(AppError::from(other), AppError::Storage(_)));
}

#[test]
fn serde_and_url_errors_convert() {
    let json = serde_json::from_str::<serde_json::Value>("{oops") as Result<_, serde_json::Error>;
    assert!(matches!(AppError::from(json.unwrap_err()), AppError::Configuration(_)));
    let url = "not a url".parse::<url::Url>() as Result<_, url::ParseError>;
    assert!(matches!(AppError::from(url.unwrap_err()), AppError::InvalidInput(_)));
}

#[test]
fn error_strings_are_user_facing() {
    assert!(AppError::Storage("disk full".into()).to_string().contains("disk full"));
    assert!(AppError::Timeout.to_string().contains("timed out"));
}

#[test]
fn error_messages_carry_their_prefix() {
    assert_eq!(AppError::InvalidInput("x".into()).to_string(), "invalid input: x");
    assert_eq!(AppError::UnsupportedUrl("x".into()).to_string(), "unsupported URL: x");
    assert_eq!(AppError::UnsafePath("x".into()).to_string(), "path is not allowed: x");
    assert_eq!(AppError::PermissionDenied("x".into()).to_string(), "permission denied: x");
    assert_eq!(AppError::NotFound("x".into()).to_string(), "resource not found: x");
    assert_eq!(AppError::Network("x".into()).to_string(), "network error: x");
    assert_eq!(AppError::Process("x".into()).to_string(), "external process failed: x");
    assert_eq!(AppError::Configuration("x".into()).to_string(), "configuration error: x");
    assert_eq!(AppError::Storage("x".into()).to_string(), "storage error: x");
    assert_eq!(AppError::Timeout.to_string(), "operation timed out");
    assert_eq!(AppError::Internal("x".into()).to_string(), "internal error: x");
}

#[test]
fn io_classes_pick_the_variant() {
    let e = AppError::from_io_class(IoErrorClass::PermissionDenied, "no".into());
    assert_eq!(e.kind(), AppErrorKind::PermissionDenied);
    let e = AppError::from_io_class(IoErrorClass::NotFound, "gone".into());
    assert_eq!(e.kind(), AppErrorKind::NotFound);
    let e = AppError::from_io_class(IoErrorClass::Other, "boom".into());
    assert_eq!(e.to_string(), "storage error: boom");
}

#[test]
fn url_errors_carry_the_url_crate_message() {
    let e = AppError::from_url_error(url::ParseError::RelativeUrlWithoutBase);
    assert_eq!(e.to_string(), "invalid input: relative URL without a base");
    let e = AppError::from_url_error(url::ParseError::EmptyHost);
    assert_eq!(e.to_string(), "invalid input: empty host");
}
