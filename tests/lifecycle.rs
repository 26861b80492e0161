use corto::error::AppError;
use corto::model::{
    apply_update, assign_code, draft_record, ensure_not_expired, mark_deleted, Model, STATUS_ACTIVE,
    STATUS_DISABLED,
};
use corto::requests::validate_update;
use corto::service::ShortUrlService;
use corto::time::Timestamp;

fn at(seconds: i64) -> Timestamp {
    Timestamp { seconds, nanos: 0, offset_seconds: 0 }
}

fn create(s: &mut ShortUrlService, url: &str) -> Model {
    s.create_short_url(url.to_string(), None, at(1_000)).unwrap()
}

fn code_of(m: &Model) -> String {
    m.short_code.clone().unwrap()
}

fn error_code(e: AppError) -> String {
    match e {
        AppError::InvalidInput { errors: Some(v), .. } => v.errors[0].code.clone(),
        other => panic!("unexpected {:?}", other),
    }
}

#[test]
fn create_rejects_bad_urls() {
    let mut s = ShortUrlService::new();
    assert_eq!(error_code(s.create_short_url("not a url".to_string(), None, at(0)).unwrap_err()), "INVALID_FORMAT");
    assert_eq!(error_code(s.create_short_url("ftp://x.com".to_string(), None, at(0)).unwrap_err()), "INVALID_SCHEME");
    assert_eq!(error_code(s.create_short_url("".to_string(), None, at(0)).unwrap_err()), "REQUIRED");
    assert!(matches!(s.find_by_id(1), Err(AppError::NotFound { .. })));
}

#[test]
fn create_assigns_ids_and_codes() {
    let mut s = ShortUrlService::new();
    let a = create(&mut s, "https://example.com");
    let b = create(&mut s, "https://example.org");
    assert_eq!(a.id, 1);
    assert_eq!(b.id, 2);
    assert_eq!(code_of(&a), "N");
    assert_eq!(code_of(&b), "z");
    assert_eq!(a.visit_count, 0);
    assert_eq!(a.status, STATUS_ACTIVE);
    assert_eq!(a.is_deleted, 0);
    assert_eq!(a.deleted_at, None);
    assert_eq!(a.created_at, at(1_000));
}

#[test]
fn create_resolve_and_count_visits() {
    let mut s = ShortUrlService::new();
    let m = create(&mut s, "https://example.com");
    let found = s.resolve_by_code(&code_of(&m), at(2_000)).unwrap();
    assert_eq!(found.visit_count, 0);
    assert_eq!(found.original_url, "https://example.com");
    s.increment_visit_count(m.id, at(2_001)).unwrap();
    assert_eq!(s.find_by_id(m.id).unwrap().visit_count, 1);
    s.increment_visit_count(m.id, at(2_002)).unwrap();
    s.increment_visit_count(m.id, at(2_003)).unwrap();
    let after = s.find_by_id(m.id).unwrap();
    assert_eq!(after.visit_count, 3);
    assert_eq!(after.updated_at, at(2_003));
}

#[test]
fn redirect_counts_and_returns_url() {
    let mut s = ShortUrlService::new();
    let m = create(&mut s, "https://example.com/path");
    assert_eq!(s.redirect_short_url(&code_of(&m), at(3_000)).unwrap(), "https://example.com/path");
    assert_eq!(s.redirect_short_url(&code_of(&m), at(3_001)).unwrap(), "https://example.com/path");
    assert_eq!(s.find_by_id(m.id).unwrap().visit_count, 2);
    assert!(matches!(s.redirect_short_url("zz", at(3_002)), Err(AppError::NotFound { .. })));
}

#[test]
fn increment_on_missing_id_is_not_found() {
    let mut s = ShortUrlService::new();
    assert!(matches!(s.increment_visit_count(1, at(0)), Err(AppError::NotFound { .. })));
    assert!(matches!(s.increment_visit_count(-3, at(0)), Err(AppError::NotFound { .. })));
}

#[test]
fn deleted_record_is_hidden_from_code_lookup() {
    let mut s = ShortUrlService::new();
    let m = create(&mut s, "https://example.com");
    s.update_short_url(m.id, None, None, Some(1), None, at(5_000)).unwrap();
    assert!(matches!(s.resolve_by_code(&code_of(&m), at(5_001)), Err(AppError::NotFound { .. })));
    assert!(matches!(s.find_by_code(&code_of(&m)), Err(AppError::NotFound { .. })));
    assert_eq!(s.find_by_id(m.id).unwrap().id, m.id);
}

#[test]
fn disabled_record_is_hidden_from_code_lookup() {
    let mut s = ShortUrlService::new();
    let m = create(&mut s, "https://example.com");
    s.update_short_url(m.id, None, Some(STATUS_DISABLED), None, None, at(5_000)).unwrap();
    assert!(matches!(s.find_by_code(&code_of(&m)), Err(AppError::NotFound { .. })));
}

#[test]
fn expired_record_is_found_but_gone() {
    let mut s = ShortUrlService::new();
    let m = s.create_short_url("https://example.com".to_string(), Some(at(100)), at(50)).unwrap();
    assert_eq!(s.find_by_code(&code_of(&m)).unwrap().id, m.id);
    assert!(matches!(s.resolve_by_code(&code_of(&m), at(100)), Err(AppError::Gone { .. })));
    assert!(matches!(s.resolve_by_code(&code_of(&m), at(200)), Err(AppError::Gone { .. })));
    assert!(s.resolve_by_code(&code_of(&m), at(99)).is_ok());
    assert!(matches!(s.redirect_short_url(&code_of(&m), at(200)), Err(AppError::Gone { .. })));
    assert_eq!(s.find_by_id(m.id).unwrap().visit_count, 0);
}

#[test]
fn ensure_not_expired_compares_instants() {
    let mut m = Model {
        id: 1,
        short_code: Some("N".to_string()),
        original_url: "https://example.com".to_string(),
        visit_count: 0,
        status: STATUS_ACTIVE,
        is_deleted: 0,
        created_at: at(0),
        updated_at: at(0),
        deleted_at: None,
        expires_at: None,
    };
    assert!(ensure_not_expired(&m, at(10)).is_ok());
    m.expires_at = Some(Timestamp { seconds: 10, nanos: 1, offset_seconds: 3600 });
    assert!(ensure_not_expired(&m, at(10)).is_ok());
    assert!(matches!(ensure_not_expired(&m, Timestamp { seconds: 10, nanos: 1, offset_seconds: 0 }), Err(AppError::Gone { .. })));
}

#[test]
fn update_deletion_flag_stamps_and_clears() {
    let mut s = ShortUrlService::new();
    let m = create(&mut s, "https://example.com");
    let d = s.update_short_url(m.id, None, None, Some(1), None, at(6_000)).unwrap();
    assert_eq!(d.deleted_at, Some(at(6_000)));
    assert_eq!(d.is_deleted, 1);
    assert_eq!(d.status, STATUS_ACTIVE);
    assert_eq!(d.updated_at, at(6_000));
    let u = s.update_short_url(m.id, None, None, Some(0), None, at(7_000)).unwrap();
    assert_eq!(u.deleted_at, None);
    assert_eq!(u.is_deleted, 0);
    assert!(s.resolve_by_code(&code_of(&m), at(7_001)).is_ok());
}

#[test]
fn update_applies_only_supplied_fields() {
    let mut s = ShortUrlService::new();
    let m = s.create_short_url("https://example.com".to_string(), Some(at(9_999)), at(1)).unwrap();
    let u = s.update_short_url(m.id, Some("https://other.example".to_string()), None, None, None, at(2)).unwrap();
    assert_eq!(u.original_url, "https://other.example");
    assert_eq!(u.expires_at, Some(at(9_999)));
    assert_eq!(u.short_code, m.short_code);
    let cleared = s.update_short_url(m.id, None, None, None, Some(None), at(3)).unwrap();
    assert_eq!(cleared.expires_at, None);
    assert_eq!(cleared.original_url, "https://other.example");
    let set = s.update_short_url(m.id, None, None, None, Some(Some(at(42))), at(4)).unwrap();
    assert_eq!(set.expires_at, Some(at(42)));
    assert!(matches!(s.update_short_url(9, None, None, None, None, at(5)), Err(AppError::NotFound { .. })));
}

#[test]
fn soft_delete_disables_and_stamps() {
    let mut s = ShortUrlService::new();
    let m = create(&mut s, "https://example.com");
    s.soft_delete(m.id, at(8_000)).unwrap();
    let d = s.find_by_id(m.id).unwrap();
    assert_eq!(d.is_deleted, 1);
    assert_eq!(d.status, STATUS_DISABLED);
    assert_eq!(d.deleted_at, Some(at(8_000)));
    s.soft_delete(m.id, at(9_000)).unwrap();
    assert_eq!(s.find_by_id(m.id).unwrap().deleted_at, Some(at(9_000)));
    assert!(matches!(s.soft_delete(7, at(0)), Err(AppError::NotFound { .. })));
}

#[test]
fn list_pages_newest_first() {
    let mut s = ShortUrlService::new();
    for i in 0..25 {
        create(&mut s, &format!("https://example.com/{}", i));
    }
    let (total, first) = s.list_short_urls(20, 0, None, None).unwrap();
    assert_eq!(total, 25);
    assert_eq!(first.len(), 20);
    let ids: Vec<i64> = first.iter().map(|m| m.id).collect();
    assert_eq!(ids, (6..=25).rev().collect::<Vec<i64>>());
    let (total, second) = s.list_short_urls(20, 20, None, None).unwrap();
    assert_eq!(total, 25);
    let ids: Vec<i64> = second.iter().map(|m| m.id).collect();
    assert_eq!(ids, vec![5, 4, 3, 2, 1]);
    let (_, beyond) = s.list_short_urls(20, 40, None, None).unwrap();
    assert!(beyond.is_empty());
}

#[test]
fn list_filters_are_conjunctive() {
    let mut s = ShortUrlService::new();
    for i in 0..6 {
        create(&mut s, &format!("https://example.com/{}", i));
    }
    s.soft_delete(2, at(1)).unwrap();
    s.update_short_url(4, None, Some(STATUS_DISABLED), None, None, at(1)).unwrap();
    let (total, items) = s.list_short_urls(100, 0, Some(STATUS_DISABLED), None).unwrap();
    assert_eq!(total, 2);
    assert_eq!(items.iter().map(|m| m.id).collect::<Vec<i64>>(), vec![4, 2]);
    let (total, items) = s.list_short_urls(100, 0, Some(STATUS_DISABLED), Some(0)).unwrap();
    assert_eq!(total, 1);
    assert_eq!(items[0].id, 4);
    let (total, items) = s.list_short_urls(100, 0, None, Some(1)).unwrap();
    assert_eq!(total, 1);
    assert_eq!(items[0].id, 2);
}

#[test]
fn pure_transforms_match_the_store() {
    let mut s = ShortUrlService::new();
    let m = create(&mut s, "https://example.com");
    let u = apply_update(m.clone(), None, Some(STATUS_DISABLED), Some(1), None, at(11));
    assert_eq!(u.status, STATUS_DISABLED);
    assert_eq!(u.deleted_at, Some(at(11)));
    let d = mark_deleted(m, at(12));
    assert_eq!(d.deleted_at, Some(at(12)));
    assert_eq!(d.updated_at, at(12));
}

fn rejected_field(e: AppError) -> (String, String) {
    match e {
        AppError::InvalidInput { errors: Some(v), .. } => (v.errors[0].field.clone(), v.errors[0].code.clone()),
        other => panic!("unexpected {:?}", other),
    }
}

#[test]
fn update_rejects_flags_outside_zero_and_one() {
    let mut s = ShortUrlService::new();
    let m = create(&mut s, "https://example.com");
    let e = s.update_short_url(m.id, None, None, Some(2), None, at(10)).unwrap_err();
    assert_eq!(rejected_field(e), ("isDeleted".to_string(), "INVALID_FORMAT".to_string()));
    let e = s.update_short_url(m.id, None, Some(5), None, None, at(10)).unwrap_err();
    assert_eq!(rejected_field(e), ("status".to_string(), "INVALID_FORMAT".to_string()));
    let kept = s.find_by_id(m.id).unwrap();
    assert_eq!(kept.is_deleted, 0);
    assert_eq!(kept.status, STATUS_ACTIVE);
    assert_eq!(kept.updated_at, at(1_000));
}

#[test]
fn update_checks_the_url_before_the_id() {
    let mut s = ShortUrlService::new();
    let m = create(&mut s, "https://example.com");
    let e = s.update_short_url(m.id, Some("ftp://x.com".to_string()), None, None, None, at(10)).unwrap_err();
    assert_eq!(rejected_field(e), ("originalUrl".to_string(), "INVALID_SCHEME".to_string()));
    let e = s.update_short_url(99, Some("".to_string()), None, None, None, at(10)).unwrap_err();
    assert_eq!(rejected_field(e), ("originalUrl".to_string(), "REQUIRED".to_string()));
    assert_eq!(s.find_by_id(m.id).unwrap().original_url, "https://example.com");
}

#[test]
fn validate_update_accepts_good_fields() {
    assert!(validate_update(Some("https://example.com"), Some(0), Some(1)).is_ok());
    assert!(validate_update(None, None, None).is_ok());
    assert!(validate_update(Some("not a url"), None, None).is_err());
    assert!(validate_update(None, None, Some(-1)).is_err());
}

#[test]
fn redirect_on_deleted_code_changes_nothing() {
    let mut s = ShortUrlService::new();
    let m = create(&mut s, "https://example.com");
    s.soft_delete(m.id, at(1_500)).unwrap();
    assert!(matches!(s.redirect_short_url(&code_of(&m), at(2_000)), Err(AppError::NotFound { .. })));
    let d = s.find_by_id(m.id).unwrap();
    assert_eq!(d.visit_count, 0);
    assert_eq!(d.updated_at, at(1_500));
}

#[test]
fn draft_then_code_builds_a_new_record() {
    let d = draft_record("https://example.com".to_string(), Some(at(77)), at(5));
    assert_eq!(d.id, 0);
    assert_eq!(d.short_code, None);
    assert_eq!(d.visit_count, 0);
    assert_eq!(d.status, STATUS_ACTIVE);
    assert_eq!(d.is_deleted, 0);
    assert_eq!(d.expires_at, Some(at(77)));
    let mut inserted = d;
    inserted.id = 12345;
    let c = assign_code(inserted, at(6));
    assert_eq!(c.short_code, Some("Ye6".to_string()));
    assert_eq!(c.updated_at, at(6));
    assert_eq!(c.created_at, at(5));
}
