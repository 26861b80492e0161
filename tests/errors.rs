use corto::error::{AppError, ValidationErrors};

#[test]
fn kinds_map_to_status_and_title() {
    let cases = [
        (AppError::bad_request("b".to_string()), 400, "Invalid input"),
        (AppError::not_found("n".to_string()), 404, "Not found"),
        (AppError::conflict("c".to_string()), 409, "Conflict"),
        (AppError::gone("g".to_string()), 410, "Gone"),
        (AppError::internal("i".to_string()), 500, "Internal error"),
    ];
    for (e, status, title) in cases.iter() {
        assert_eq!(e.status(), *status);
        assert_eq!(e.title(), *title);
    }
}

#[test]
fn detail_is_kept() {
    assert_eq!(AppError::gone("short url expired".to_string()).detail(), "short url expired");
    let e = AppError::bad_request_with_errors(
        "x is required".to_string(),
        ValidationErrors::single("x".to_string(), "REQUIRED".to_string(), "x is required".to_string()),
    );
    assert_eq!(e.detail(), "x is required");
    match e {
        AppError::InvalidInput { errors: Some(v), .. } => {
            assert_eq!(v.errors.len(), 1);
            assert_eq!(v.errors[0].field, "x");
        }
        other => panic!("unexpected {:?}", other),
    }
}
