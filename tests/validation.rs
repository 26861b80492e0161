use corto::error::AppError;
use corto::validation::validate_url;

fn only_error(e: AppError) -> (String, String, String, String) {
    match e {
        AppError::InvalidInput { detail, errors: Some(v) } => {
            assert_eq!(v.errors.len(), 1);
            let f = &v.errors[0];
            (detail, f.field.clone(), f.code.clone(), f.message.clone())
        }
        other => panic!("unexpected error {:?}", other),
    }
}

#[test]
fn accepts_http_and_https() {
    assert!(validate_url("https://example.com", "url").is_ok());
    assert!(validate_url("http://example.com/a?b=c", "url").is_ok());
}

#[test]
fn blank_is_required() {
    let (detail, field, code, message) = only_error(validate_url("", "url").unwrap_err());
    assert_eq!(detail, "url is required");
    assert_eq!(field, "url");
    assert_eq!(code, "REQUIRED");
    assert_eq!(message, "url is required");
    let (_, _, code, _) = only_error(validate_url("  \t", "originalUrl").unwrap_err());
    assert_eq!(code, "REQUIRED");
}

#[test]
fn unparseable_is_invalid_format() {
    let (detail, field, code, message) = only_error(validate_url("not a url", "url").unwrap_err());
    assert_eq!(detail, "url is invalid");
    assert_eq!(field, "url");
    assert_eq!(code, "INVALID_FORMAT");
    assert_eq!(message, "url is invalid");
}

#[test]
fn other_scheme_is_invalid_scheme() {
    let (detail, _, code, message) = only_error(validate_url("ftp://x.com", "originalUrl").unwrap_err());
    assert_eq!(detail, "originalUrl scheme must be http or https");
    assert_eq!(code, "INVALID_SCHEME");
    assert_eq!(message, "originalUrl scheme must be http or https");
}
