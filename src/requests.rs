//! What callers send in, and how it is read before the engine sees it.
use vstd::prelude::*;
use crate::error::{AppError, ValidationErrors, rejects_field};
use crate::text::{trim_text, trimmed};
use crate::validation::{problem_code, problem_message, url_problem, url_scheme, validate_url};
use crate::time::{Timestamp, parse_rfc3339, rfc3339_parts};

verus! {

pub struct CreateShortUrlRequest {
    pub url: String,
    pub expires_at: Option<String>,
}

pub struct UpdateRequest {
    pub original_url: Option<String>,
    pub status: Option<i16>,
    pub is_deleted: Option<i16>,
    pub expires_at: Option<String>,
}

pub struct ListQuery {
    pub page: Option<u64>,
    pub page_size: Option<u64>,
    pub status: Option<i16>,
    pub is_deleted: Option<i16>,
}

pub const DEFAULT_PAGE_SIZE: u64 = 20;

pub const MAX_PAGE_SIZE: u64 = 100;

pub open spec fn timestamp_of(p: (i64, u32, i32)) -> Timestamp {
    Timestamp { seconds: p.0, nanos: p.1, offset_seconds: p.2 }
}

/// The error for an expiry that is not RFC 3339.
pub open spec fn is_expiry_error(e: AppError) -> bool {
    rejects_field(
        e,
        "expiresAt"@,
        "INVALID_FORMAT"@,
        "expires_at is invalid"@,
        "expires_at must be RFC3339"@,
    )
}

fn expiry_error() -> (r: AppError)
    ensures
        is_expiry_error(r),
{
    AppError::bad_request_with_errors(
        "expires_at is invalid".to_owned(),
        ValidationErrors::single(
            "expiresAt".to_owned(),
            "INVALID_FORMAT".to_owned(),
            "expires_at must be RFC3339".to_owned(),
        ),
    )
}

/// Reads an optional expiry: absent or blank means none.
pub fn parse_expires_at(input: Option<String>) -> (r: Result<Option<Timestamp>, AppError>)
    ensures
        match input {
            None => r == Ok::<Option<Timestamp>, AppError>(None),
            Some(v) => if trimmed(v@).len() == 0 {
                r == Ok::<Option<Timestamp>, AppError>(None)
            } else {
                match rfc3339_parts(trimmed(v@)) {
                    None => r is Err && is_expiry_error(r->Err_0),
                    Some(p) => r == Ok::<Option<Timestamp>, AppError>(Some(timestamp_of(p))),
                }
            },
        },
{
    match input {
        None => Ok(None),
        Some(value) => {
            let t = trim_text(value.as_str());
            if t.is_empty() {
                return Ok(None);
            }
            match parse_rfc3339(t) {
                None => Err(expiry_error()),
                Some(ts) => Ok(Some(ts)),
            }
        },
    }
}

/// Reads the expiry of an update: absent leaves it alone, blank clears it,
/// and a value sets it.
pub fn parse_update_expires_at(input: Option<String>) -> (r: Result<
    Option<Option<Timestamp>>,
    AppError,
>)
    ensures
        match input {
            None => r == Ok::<Option<Option<Timestamp>>, AppError>(None),
            Some(v) => if trimmed(v@).len() == 0 {
                r == Ok::<Option<Option<Timestamp>>, AppError>(Some(None))
            } else {
                match rfc3339_parts(trimmed(v@)) {
                    None => r is Err && is_expiry_error(r->Err_0),
                    Some(p) => r == Ok::<Option<Option<Timestamp>>, AppError>(
                        Some(Some(timestamp_of(p))),
                    ),
                }
            },
        },
{
    match input {
        None => Ok(None),
        Some(value) => {
            let t = trim_text(value.as_str());
            if t.is_empty() {
                return Ok(Some(None));
            }
            match parse_rfc3339(t) {
                None => Err(expiry_error()),
                Some(ts) => Ok(Some(Some(ts))),
            }
        },
    }
}

/// The first problem with the supplied fields of an update, as field, code
/// and message: the URL must pass the URL check, and status and deletion
/// flag must each be 0 or 1.
pub open spec fn update_problem(
    original_url: Option<Seq<char>>,
    status: Option<i16>,
    is_deleted: Option<i16>,
) -> Option<(Seq<char>, Seq<char>, Seq<char>)> {
    let url = match original_url {
        Some(u) => url_problem(trimmed(u).len() == 0, url_scheme(u)),
        None => None,
    };
    match url {
        Some(p) => Some(("originalUrl"@, problem_code(p), problem_message(p, "originalUrl"@))),
        None => if status matches Some(st) && st != 0 && st != 1 {
            Some(("status"@, "INVALID_FORMAT"@, "status must be 0 or 1"@))
        } else if is_deleted matches Some(d) && d != 0 && d != 1 {
            Some(("isDeleted"@, "INVALID_FORMAT"@, "isDeleted must be 0 or 1"@))
        } else {
            None
        },
    }
}

/// The outcome owed to an update with these supplied fields.
pub open spec fn update_verdict(
    r: Result<(), AppError>,
    original_url: Option<Seq<char>>,
    status: Option<i16>,
    is_deleted: Option<i16>,
) -> bool {
    match update_problem(original_url, status, is_deleted) {
        None => r is Ok,
        Some(p) => r is Err && rejects_field(r->Err_0, p.0, p.1, p.2, p.2),
    }
}

fn flag_error(field: &str, message: &str) -> (r: AppError)
    ensures
        rejects_field(r, field@, "INVALID_FORMAT"@, message@, message@),
{
    AppError::bad_request_with_errors(
        message.to_owned(),
        ValidationErrors::single(field.to_owned(), "INVALID_FORMAT".to_owned(), message.to_owned()),
    )
}

/// Checks the supplied fields of an update before the store is touched.
pub fn validate_update(original_url: Option<&str>, status: Option<i16>, is_deleted: Option<i16>) -> (r:
    Result<(), AppError>)
    ensures
        update_verdict(
            r,
            match original_url {
                Some(u) => Some(u@),
                None => None,
            },
            status,
            is_deleted,
        ),
{
    if let Some(url) = original_url {
        if let Err(e) = validate_url(url, "originalUrl") {
            return Err(e);
        }
    }
    if let Some(st) = status {
        if st != 0 && st != 1 {
            return Err(flag_error("status", "status must be 0 or 1"));
        }
    }
    if let Some(d) = is_deleted {
        if d != 0 && d != 1 {
            return Err(flag_error("isDeleted", "isDeleted must be 0 or 1"));
        }
    }
    Ok(())
}

/// The page size a query asks for: 20 when absent, at most 100.
pub open spec fn page_size_of(q: ListQuery) -> u64 {
    match q.page_size {
        None => DEFAULT_PAGE_SIZE,
        Some(s) => if s > MAX_PAGE_SIZE {
            MAX_PAGE_SIZE
        } else {
            s
        },
    }
}

/// The 1-based page a query asks for: 1 when absent or zero.
pub open spec fn page_of(q: ListQuery) -> u64 {
    match q.page {
        None => 1,
        Some(p) => if p < 1 {
            1
        } else {
            p
        },
    }
}

/// The page, the page size and the offset `(page - 1) * page_size` of a
/// query; an offset past `u64::MAX` is held at `u64::MAX`, which no store reaches.
pub fn list_window(query: &ListQuery) -> (r: (u64, u64, u64))
    ensures
        r.0 == page_of(*query),
        r.1 == page_size_of(*query),
        (r.0 - 1) * r.1 <= u64::MAX ==> r.2 == (r.0 - 1) * r.1,
        (r.0 - 1) * r.1 > u64::MAX ==> r.2 == u64::MAX,
{
    let page_size = match query.page_size {
        None => DEFAULT_PAGE_SIZE,
        Some(s) => if s > MAX_PAGE_SIZE {
            MAX_PAGE_SIZE
        } else {
            s
        },
    };
    let page = match query.page {
        None => 1,
        Some(p) => if p < 1 {
            1
        } else {
            p
        },
    };
    let offset = (page - 1).checked_mul(page_size).unwrap_or(u64::MAX);
    (page, page_size, offset)
}

} // verus!
