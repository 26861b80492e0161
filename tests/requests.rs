use corto::error::AppError;
use corto::requests::{list_window, parse_expires_at, parse_update_expires_at, ListQuery};
use corto::time::Timestamp;

fn query(page: Option<u64>, page_size: Option<u64>) -> ListQuery {
    ListQuery { page, page_size, status: None, is_deleted: None }
}

#[test]
fn expiry_absent_or_blank_is_none() {
    assert!(matches!(parse_expires_at(None), Ok(None)));
    assert!(matches!(parse_expires_at(Some("  ".to_string())), Ok(None)));
}

#[test]
fn expiry_is_parsed_as_rfc3339() {
    let t = parse_expires_at(Some(" 2030-01-02T03:04:05+02:00 ".to_string())).unwrap().unwrap();
    assert_eq!(t, Timestamp { seconds: 1_893_546_245, nanos: 0, offset_seconds: 7200 });
    let z = parse_expires_at(Some("1970-01-01T00:00:01.5Z".to_string())).unwrap().unwrap();
    assert_eq!(z, Timestamp { seconds: 1, nanos: 500_000_000, offset_seconds: 0 });
}

#[test]
fn bad_expiry_is_invalid_format() {
    match parse_expires_at(Some("tomorrow".to_string())) {
        Err(AppError::InvalidInput { detail, errors: Some(v) }) => {
            assert_eq!(detail, "expires_at is invalid");
            assert_eq!(v.errors[0].field, "expiresAt");
            assert_eq!(v.errors[0].code, "INVALID_FORMAT");
            assert_eq!(v.errors[0].message, "expires_at must be RFC3339");
        }
        other => panic!("unexpected {:?}", other),
    }
}

#[test]
fn update_expiry_is_three_way() {
    assert!(matches!(parse_update_expires_at(None), Ok(None)));
    assert!(matches!(parse_update_expires_at(Some("".to_string())), Ok(Some(None))));
    let t = parse_update_expires_at(Some("2030-01-02T01:04:05Z".to_string())).unwrap();
    assert_eq!(t, Some(Some(Timestamp { seconds: 1_893_546_245, nanos: 0, offset_seconds: 0 })));
    assert!(matches!(
        parse_update_expires_at(Some("2030-13-01T00:00:00Z".to_string())),
        Err(AppError::InvalidInput { .. })
    ));
}

#[test]
fn list_window_defaults_and_caps() {
    assert_eq!(list_window(&query(None, None)), (1, 20, 0));
    assert_eq!(list_window(&query(Some(0), Some(500))), (1, 100, 0));
    assert_eq!(list_window(&query(Some(3), Some(20))), (3, 20, 40));
    assert_eq!(list_window(&query(Some(u64::MAX), Some(100))), (u64::MAX, 100, u64::MAX));
}
