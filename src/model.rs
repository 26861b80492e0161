//! The short-URL record and the transformations that the lifecycle applies to it.
use vstd::prelude::*;
use crate::time::Timestamp;

verus! {

pub const STATUS_ACTIVE: i16 = 1;

pub const STATUS_DISABLED: i16 = 0;

pub const NOT_DELETED: i16 = 0;

pub const DELETED: i16 = 1;

/// One stored short URL.
#[derive(Debug, Clone)]
pub struct Model {
    pub id: i64,
    pub short_code: Option<String>,
    pub original_url: String,
    pub visit_count: i64,
    pub status: i16,
    pub is_deleted: i16,
    pub created_at: Timestamp,
    pub updated_at: Timestamp,
    pub deleted_at: Option<Timestamp>,
    pub expires_at: Option<Timestamp>,
}

/// A record with its strings seen as character sequences.
pub struct ModelView {
    pub id: i64,
    pub short_code: Option<Seq<char>>,
    pub original_url: Seq<char>,
    pub visit_count: i64,
    pub status: i16,
    pub is_deleted: i16,
    pub created_at: Timestamp,
    pub updated_at: Timestamp,
    pub deleted_at: Option<Timestamp>,
    pub expires_at: Option<Timestamp>,
}

impl View for Model {
    type V = ModelView;

    open spec fn view(&self) -> ModelView {
        ModelView {
            id: self.id,
            short_code: match self.short_code {
                Some(c) => Some(c@),
                None => None,
            },
            original_url: self.original_url@,
            visit_count: self.visit_count,
            status: self.status,
            is_deleted: self.is_deleted,
            created_at: self.created_at,
            updated_at: self.updated_at,
            deleted_at: self.deleted_at,
            expires_at: self.expires_at,
        }
    }
}

impl Model {
    /// A copy of the record.
    pub fn duplicate(&self) -> (r: Model)
        ensures
            r@ == self@,
    {
        Model {
            id: self.id,
            short_code: match &self.short_code {
                Some(c) => Some(c.clone()),
                None => None,
            },
            original_url: self.original_url.clone(),
            visit_count: self.visit_count,
            status: self.status,
            is_deleted: self.is_deleted,
            created_at: self.created_at,
            updated_at: self.updated_at,
            deleted_at: self.deleted_at,
            expires_at: self.expires_at,
        }
    }
}

/// A record that is neither disabled nor deleted, whatever its expiry.
pub open spec fn is_listed_active(m: ModelView) -> bool {
    m.is_deleted == NOT_DELETED && m.status == STATUS_ACTIVE
}

/// The record has an expiry that is not later than `now`.
pub open spec fn is_expired(m: ModelView, now: Timestamp) -> bool {
    match m.expires_at {
        Some(e) => crate::time::not_after(e, now),
        None => false,
    }
}

/// Resolvable: active, not deleted, and not expired at `now`.
pub open spec fn is_resolvable(m: ModelView, now: Timestamp) -> bool {
    is_listed_active(m) && !is_expired(m, now)
}

/// Status is active or disabled, and the deletion flag is set or clear.
pub open spec fn valid_flags(m: ModelView) -> bool {
    &&& (m.status == STATUS_ACTIVE || m.status == STATUS_DISABLED)
    &&& (m.is_deleted == NOT_DELETED || m.is_deleted == DELETED)
}

/// A new record before the store gives it an id: active, not deleted, no
/// visits, no code.
pub open spec fn draft(original_url: Seq<char>, expires_at: Option<Timestamp>, now: Timestamp) -> ModelView {
    ModelView {
        id: 0,
        short_code: None,
        original_url,
        visit_count: 0,
        status: STATUS_ACTIVE,
        is_deleted: NOT_DELETED,
        created_at: now,
        updated_at: now,
        deleted_at: None,
        expires_at,
    }
}

/// The record with the code of its id, stamped at `now`.
pub open spec fn coded(m: ModelView, now: Timestamp) -> ModelView {
    ModelView {
        short_code: Some(crate::text::ascii_chars(crate::base62::encode_value(m.id))),
        updated_at: now,
        ..m
    }
}

/// The record that a create inserts.
pub fn draft_record(original_url: String, expires_at: Option<Timestamp>, now: Timestamp) -> (r: Model)
    ensures
        r@ == draft(original_url@, expires_at, now),
{
    Model {
        id: 0,
        short_code: None,
        original_url,
        visit_count: 0,
        status: STATUS_ACTIVE,
        is_deleted: NOT_DELETED,
        created_at: now,
        updated_at: now,
        deleted_at: None,
        expires_at,
    }
}

/// Gives an inserted record the code of the id it was assigned.
pub fn assign_code(m: Model, now: Timestamp) -> (r: Model)
    ensures
        r@ == coded(m@, now),
{
    let mut r = m;
    r.short_code = Some(crate::base62::encode(r.id));
    r.updated_at = now;
    r
}

/// A deletion stamp is present exactly on deleted records.
pub open spec fn deletion_consistent(m: ModelView) -> bool {
    (m.deleted_at is Some) == (m.is_deleted == DELETED)
}

/// A record after an update that supplies some of its fields at `now`.
pub open spec fn updated(
    m: ModelView,
    original_url: Option<Seq<char>>,
    status: Option<i16>,
    is_deleted: Option<i16>,
    expires_at: Option<Option<Timestamp>>,
    now: Timestamp,
) -> ModelView {
    ModelView {
        original_url: match original_url {
            Some(u) => u,
            None => m.original_url,
        },
        status: match status {
            Some(s) => s,
            None => m.status,
        },
        is_deleted: match is_deleted {
            Some(d) => d,
            None => m.is_deleted,
        },
        deleted_at: match is_deleted {
            Some(d) => if d == DELETED {
                Some(now)
            } else {
                None
            },
            None => m.deleted_at,
        },
        expires_at: match expires_at {
            Some(e) => e,
            None => m.expires_at,
        },
        updated_at: now,
        ..m
    }
}

/// A record after a soft deletion at `now`.
pub open spec fn soft_deleted(m: ModelView, now: Timestamp) -> ModelView {
    ModelView {
        is_deleted: DELETED,
        status: STATUS_DISABLED,
        deleted_at: Some(now),
        updated_at: now,
        ..m
    }
}

/// Applies the supplied fields of an update; the deletion stamp follows the
/// deletion flag whenever it is supplied.
pub fn apply_update(
    m: Model,
    original_url: Option<String>,
    status: Option<i16>,
    is_deleted: Option<i16>,
    expires_at: Option<Option<Timestamp>>,
    now: Timestamp,
) -> (r: Model)
    ensures
        r@ == updated(
            m@,
            match original_url {
                Some(u) => Some(u@),
                None => None,
            },
            status,
            is_deleted,
            expires_at,
            now,
        ),
{
    let mut r = m;
    r.updated_at = now;
    if let Some(url) = original_url {
        r.original_url = url;
    }
    if let Some(s) = status {
        r.status = s;
    }
    if let Some(d) = is_deleted {
        r.is_deleted = d;
        r.deleted_at = if d == DELETED {
            Some(now)
        } else {
            None
        };
    }
    if let Some(e) = expires_at {
        r.expires_at = e;
    }
    r
}

/// Marks a record deleted and disabled at `now`.
pub fn mark_deleted(m: Model, now: Timestamp) -> (r: Model)
    ensures
        r@ == soft_deleted(m@, now),
{
    let mut r = m;
    r.is_deleted = DELETED;
    r.status = STATUS_DISABLED;
    r.deleted_at = Some(now);
    r.updated_at = now;
    r
}

/// Fails with `Gone` when the record has expired at `now`.
pub fn ensure_not_expired(model: &Model, now: Timestamp) -> (r: Result<(), crate::error::AppError>)
    ensures
        is_expired(model@, now) ==> r is Err && r->Err_0 is Gone,
        !is_expired(model@, now) ==> r is Ok,
{
    if let Some(expires_at) = model.expires_at {
        if expires_at.is_not_after(&now) {
            return Err(crate::error::AppError::gone("short url expired".to_owned()));
        }
    }
    Ok(())
}

} // verus!
