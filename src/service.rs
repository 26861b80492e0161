//! The short-code lifecycle engine over an in-memory record store.
use vstd::prelude::*;
use crate::base62::{encode, encode_value, lemma_round_trip};
use crate::error::{AppError, rejects_field};
use crate::model::{
    DELETED, Model, ModelView, NOT_DELETED, STATUS_ACTIVE, apply_update, assign_code,
    deletion_consistent, draft_record, ensure_not_expired, is_expired, is_listed_active,
    mark_deleted, soft_deleted, updated, valid_flags,
};
use crate::text::{ascii_chars, trimmed};
use crate::time::Timestamp;
use crate::requests::{update_problem, validate_update};
use crate::validation::{problem_code, problem_message, url_problem, url_scheme, validate_url};

verus! {

/// The records in store order.
pub open spec fn views(s: Seq<Model>) -> Seq<ModelView> {
    s.map_values(|m: Model| m@)
}

/// The code that the record with id `id` is given.
pub open spec fn code_of(id: i64) -> Seq<char> {
    ascii_chars(encode_value(id))
}

/// Ids run 1, 2, 3, ... in store order, every record carries the code of its
/// id, and deletion stamps follow the deletion flags.
pub open spec fn store_invariant(s: Seq<ModelView>) -> bool {
    &&& s.len() <= i64::MAX
    &&& forall|i: int|
        0 <= i < s.len() ==> {
            &&& (#[trigger] s[i]).id == i + 1
            &&& s[i].short_code == Some(code_of(s[i].id))
            &&& deletion_consistent(s[i])
            &&& valid_flags(s[i])
        }
}

/// The record that a successful create at position `len` holds.
pub open spec fn created(
    len: int,
    original_url: Seq<char>,
    expires_at: Option<Timestamp>,
    now: Timestamp,
) -> ModelView {
    ModelView {
        id: (len + 1) as i64,
        short_code: Some(code_of((len + 1) as i64)),
        original_url,
        visit_count: 0,
        status: STATUS_ACTIVE,
        is_deleted: NOT_DELETED,
        created_at: now,
        updated_at: now,
        deleted_at: None,
        expires_at,
    }
}

/// A lookup by code finds `m`: it carries the code and is active and not deleted.
pub open spec fn code_filter(m: ModelView, code: Seq<char>) -> bool {
    m.short_code == Some(code) && is_listed_active(m)
}

/// The record after one visit at `now`.
pub open spec fn visited(m: ModelView, now: Timestamp) -> ModelView {
    ModelView { visit_count: (m.visit_count + 1) as i64, updated_at: now, ..m }
}

/// `m` passes the optional status and deletion filters.
pub open spec fn passes(m: ModelView, status: Option<i16>, is_deleted: Option<i16>) -> bool {
    &&& (status matches Some(st) ==> m.status == st)
    &&& (is_deleted matches Some(d) ==> m.is_deleted == d)
}

/// The records that pass the filters, newest (highest id) first.
pub open spec fn newest_first(s: Seq<ModelView>, status: Option<i16>, is_deleted: Option<i16>) -> Seq<
    ModelView,
>
    decreases s.len(),
{
    if s.len() == 0 {
        Seq::empty()
    } else {
        let rest = newest_first(s.drop_last(), status, is_deleted);
        if passes(s.last(), status, is_deleted) {
            seq![s.last()] + rest
        } else {
            rest
        }
    }
}

/// The part of `s` that a page of `limit` items after `offset` items shows.
pub open spec fn page(s: Seq<ModelView>, offset: int, limit: int) -> Seq<ModelView> {
    let lo = if offset < s.len() {
        offset
    } else {
        s.len() as int
    };
    let hi = if offset + limit < s.len() {
        offset + limit
    } else {
        s.len() as int
    };
    s.subrange(lo, hi)
}

pub struct ShortUrlService {
    records: Vec<Model>,
}

impl View for ShortUrlService {
    type V = Seq<ModelView>;

    closed spec fn view(&self) -> Seq<ModelView> {
        views(self.records@)
    }
}

impl ShortUrlService {
    pub open spec fn wf(&self) -> bool {
        store_invariant(self@)
    }

    /// An empty store.
    pub fn new() -> (r: Self)
        ensures
            r.wf(),
            r@ == Seq::<ModelView>::empty(),
    {
        let r = ShortUrlService { records: Vec::new() };
        assert(r@ =~= Seq::<ModelView>::empty());
        r
    }

    /// Validates the URL, inserts an active record with no visits, then gives
    /// it the code of the id that the insert assigned.
    pub fn create_short_url(
        &mut self,
        original_url: String,
        expires_at: Option<Timestamp>,
        now: Timestamp,
    ) -> (r: Result<Model, AppError>)
        requires
            old(self).wf(),
        ensures
            final(self).wf(),
            original_url@.len() == 0 ==> r is Err && rejects_field(
                r->Err_0,
                "url"@,
                "REQUIRED"@,
                "url is required"@,
                "url is required"@,
            ) && final(self)@ == old(self)@,
            match url_problem(trimmed(original_url@).len() == 0, url_scheme(original_url@)) {
                Some(p) => {
                    &&& r is Err
                    &&& rejects_field(
                        r->Err_0,
                        "url"@,
                        problem_code(p),
                        problem_message(p, "url"@),
                        problem_message(p, "url"@),
                    )
                    &&& final(self)@ == old(self)@
                },
                None => if old(self)@.len() < i64::MAX {
                    &&& r is Ok
                    &&& r->Ok_0@ == created(old(self)@.len() as int, original_url@, expires_at, now)
                    &&& final(self)@ == old(self)@.push(r->Ok_0@)
                } else {
                    &&& r is Err
                    &&& r->Err_0 is Internal
                    &&& final(self)@ == old(self)@
                },
            },
    {
        proof {
            reveal_strlit("url");
            reveal_strlit(" is required");
            reveal_strlit("url is required");
            assert("url"@ + " is required"@ =~= "url is required"@);
        }
        if let Err(e) = validate_url(original_url.as_str(), "url") {
            return Err(e);
        }
        let len = self.records.len();
        if len as u64 >= i64::MAX as u64 {
            return Err(AppError::internal("failed to create short url: the store is full".to_owned()));
        }
        let mut inserted = draft_record(original_url, expires_at, now);
        inserted.id = len as i64 + 1;
        self.records.push(inserted);
        let stored = self.records[len].duplicate();
        let saved = assign_code(stored, now);
        let out = saved.duplicate();
        self.records[len] = saved;
        proof {
            assert(self@ =~= old(self)@.push(out@));
        }
        Ok(out)
    }

    /// The first record that carries `code` and is active and not deleted.
    pub fn find_by_code(&self, code: &str) -> (r: Result<Model, AppError>)
        ensures
            match r {
                Ok(m) => exists|i: int|
                    0 <= i < self@.len() && self@[i] == m@ && code_filter(m@, code@) && forall|
                        j: int,
                    |
                        0 <= j < i ==> !code_filter(#[trigger] self@[j], code@),
                Err(e) => e is NotFound && forall|i: int|
                    0 <= i < self@.len() ==> !code_filter(#[trigger] self@[i], code@),
            },
    {
        let wanted = code.to_owned();
        let mut i: usize = 0;
        while i < self.records.len()
            invariant
                0 <= i <= self@.len(),
                self@.len() == self.records@.len(),
                wanted@ == code@,
                forall|j: int| 0 <= j < i ==> !code_filter(#[trigger] self@[j], code@),
            decreases self.records@.len() - i,
        {
            let m = &self.records[i];
            assert(self@[i as int] == m@);
            let hit = match &m.short_code {
                Some(c) => *c == wanted,
                None => false,
            };
            if hit && m.is_deleted == NOT_DELETED && m.status == STATUS_ACTIVE {
                return Ok(m.duplicate());
            }
            i = i + 1;
        }
        Err(AppError::not_found("short url not found".to_owned()))
    }

    /// Looks a code up and refuses an expired record with `Gone`.
    pub fn resolve_by_code(&self, code: &str, now: Timestamp) -> (r: Result<Model, AppError>)
        requires
            self.wf(),
        ensures
            match r {
                Ok(m) => exists|i: int|
                    0 <= i < self@.len() && self@[i] == m@ && code_filter(m@, code@) && !is_expired(
                        m@,
                        now,
                    ),
                Err(e) => (e is NotFound && forall|i: int|
                    0 <= i < self@.len() ==> !code_filter(#[trigger] self@[i], code@)) || e is Gone,
            },
            r is Err && r->Err_0 is Gone <==> exists|i: int|
                0 <= i < self@.len() && code_filter(self@[i], code@) && is_expired(self@[i], now),
    {
        proof {
            lemma_code_unique(self@, code@);
        }
        let m = match self.find_by_code(code) {
            Ok(m) => m,
            Err(e) => return Err(e),
        };
        match ensure_not_expired(&m, now) {
            Ok(()) => Ok(m),
            Err(e) => Err(e),
        }
    }

    /// Resolves a code, counts the visit, and gives the URL to redirect to.
    /// Nothing changes when the code does not resolve.
    pub fn redirect_short_url(&mut self, code: &str, now: Timestamp) -> (r: Result<String, AppError>)
        requires
            old(self).wf(),
        ensures
            final(self).wf(),
            r is Err ==> final(self)@ == old(self)@,
            (forall|i: int| 0 <= i < old(self)@.len() ==> !code_filter(#[trigger] old(self)@[i], code@))
                ==> r is Err && r->Err_0 is NotFound,
            (exists|i: int|
                0 <= i < old(self)@.len() && code_filter(old(self)@[i], code@) && is_expired(
                    old(self)@[i],
                    now,
                )) ==> r is Err && r->Err_0 is Gone,
            (exists|i: int|
                0 <= i < old(self)@.len() && code_filter(old(self)@[i], code@) && !is_expired(
                    old(self)@[i],
                    now,
                ) && old(self)@[i].visit_count == i64::MAX) ==> r is Err && r->Err_0 is Internal,
            match r {
                Ok(url) => exists|i: int|
                    #![trigger old(self)@[i]]
                    0 <= i < old(self)@.len() && code_filter(old(self)@[i], code@) && !is_expired(
                        old(self)@[i],
                        now,
                    ) && url@ == old(self)@[i].original_url && final(self)@ == old(self)@.update(
                        i,
                        visited(old(self)@[i], now),
                    ),
                Err(e) => e is NotFound || e is Gone || e is Internal,
            },
            (exists|i: int|
                0 <= i < old(self)@.len() && code_filter(old(self)@[i], code@) && !is_expired(
                    old(self)@[i],
                    now,
                ) && old(self)@[i].visit_count < i64::MAX) ==> r is Ok,
    {
        proof {
            lemma_code_unique(self@, code@);
        }
        let m = match self.resolve_by_code(code, now) {
            Ok(m) => m,
            Err(e) => return Err(e),
        };
        match self.increment_visit_count(m.id, now) {
            Ok(()) => Ok(m.original_url),
            Err(e) => Err(e),
        }
    }

    /// Adds one visit to the record with `id` and stamps it, whatever its state.
    pub fn increment_visit_count(&mut self, id: i64, now: Timestamp) -> (r: Result<(), AppError>)
        requires
            old(self).wf(),
        ensures
            final(self).wf(),
            1 <= id <= old(self)@.len() && old(self)@[id - 1].visit_count < i64::MAX ==> r is Ok
                && final(self)@ == old(self)@.update(id - 1, visited(old(self)@[id - 1], now)),
            1 <= id <= old(self)@.len() && old(self)@[id - 1].visit_count == i64::MAX ==> r is Err
                && r->Err_0 is Internal && final(self)@ == old(self)@,
            !(1 <= id <= old(self)@.len()) ==> r is Err && r->Err_0 is NotFound && final(self)@
                == old(self)@,
    {
        if id < 1 || id as u64 > self.records.len() as u64 {
            return Err(AppError::not_found("short url not found".to_owned()));
        }
        let i = (id - 1) as usize;
        assert(self@[i as int] == self.records@[i as int]@);
        if self.records[i].visit_count == i64::MAX {
            return Err(AppError::internal("failed to update visit count: counter is full".to_owned()));
        }
        let mut m = self.records[i].duplicate();
        m.visit_count = m.visit_count + 1;
        m.updated_at = now;
        self.records[i] = m;
        proof {
            assert(self@ =~= old(self)@.update(id - 1, visited(old(self)@[id - 1], now)));
        }
        Ok(())
    }

    /// The record with `id`, whatever its state.
    pub fn find_by_id(&self, id: i64) -> (r: Result<Model, AppError>)
        requires
            self.wf(),
        ensures
            1 <= id <= self@.len() ==> r is Ok && r->Ok_0@ == self@[id - 1],
            !(1 <= id <= self@.len()) ==> r is Err && r->Err_0 is NotFound,
    {
        if id < 1 || id as u64 > self.records.len() as u64 {
            return Err(AppError::not_found("short url not found".to_owned()));
        }
        let i = (id - 1) as usize;
        assert(self@[i as int] == self.records@[i as int]@);
        Ok(self.records[i].duplicate())
    }

    /// The number of records that pass the filters, and the page of them
    /// that starts after `offset` and holds at most `limit`, newest first.
    pub fn list_short_urls(
        &self,
        limit: u64,
        offset: u64,
        status: Option<i16>,
        is_deleted: Option<i16>,
    ) -> (r: Result<(u64, Vec<Model>), AppError>)
        requires
            self.wf(),
        ensures
            r is Ok,
            r->Ok_0.0 == newest_first(self@, status, is_deleted).len(),
            views(r->Ok_0.1@) == page(
                newest_first(self@, status, is_deleted),
                offset as int,
                limit as int,
            ),
    {
        let ghost all = newest_first(self@, status, is_deleted);
        let ghost mut seen: Seq<ModelView> = Seq::empty();
        let mut items: Vec<Model> = Vec::new();
        let mut count: u64 = 0;
        let mut i: usize = self.records.len();
        proof {
            assert(self@.subrange(0, i as int) =~= self@);
            assert(all =~= seen + newest_first(self@.subrange(0, i as int), status, is_deleted));
            assert(views(items@) =~= page(seen, offset as int, limit as int));
        }
        while i > 0
            invariant
                0 <= i <= self@.len(),
                self@.len() == self.records@.len(),
                self@.len() <= i64::MAX,
                all == newest_first(self@, status, is_deleted),
                all == seen + newest_first(self@.subrange(0, i as int), status, is_deleted),
                count == seen.len(),
                seen.len() + i <= self@.len(),
                views(items@) == page(seen, offset as int, limit as int),
            decreases i,
        {
            let ghost before = self@.subrange(0, i as int);
            proof {
                assert(before.drop_last() =~= self@.subrange(0, i - 1));
                assert(before.last() == self@[i - 1]);
            }
            i = i - 1;
            let m = &self.records[i];
            assert(self@[i as int] == m@);
            let keep = match status {
                Some(st) => m.status == st,
                None => true,
            } && match is_deleted {
                Some(d) => m.is_deleted == d,
                None => true,
            };
            if keep {
                let ghost old_seen = seen;
                let ghost old_items = views(items@);
                if count >= offset && count - offset < limit {
                    let d = m.duplicate();
                    items.push(d);
                    assert(views(items@) =~= old_items.push(m@));
                } else {
                    assert(views(items@) =~= old_items);
                }
                proof {
                    seen = seen.push(m@);
                    assert(seen + newest_first(self@.subrange(0, i as int), status, is_deleted)
                        =~= old_seen + newest_first(before, status, is_deleted));
                    assert(views(items@) =~= page(seen, offset as int, limit as int));
                }
                count = count + 1;
            }
        }
        proof {
            assert(self@.subrange(0, 0).len() == 0);
            assert(seen =~= all);
        }
        Ok((count, items))
    }

    /// Applies the supplied fields to the record with `id` at `now`.
    pub fn update_short_url(
        &mut self,
        id: i64,
        original_url: Option<String>,
        status: Option<i16>,
        is_deleted: Option<i16>,
        expires_at: Option<Option<Timestamp>>,
        now: Timestamp,
    ) -> (r: Result<Model, AppError>)
        requires
            old(self).wf(),
        ensures
            final(self).wf(),
            ({
                let url = match original_url {
                    Some(u) => Some(u@),
                    None => None,
                };
                update_problem(url, status, is_deleted) matches Some(p) ==> {
                    &&& r is Err
                    &&& rejects_field(r->Err_0, p.0, p.1, p.2, p.2)
                    &&& final(self)@ == old(self)@
                }
            }),
            update_problem(
                match original_url {
                    Some(u) => Some(u@),
                    None => None,
                },
                status,
                is_deleted,
            ) is None && 1 <= id <= old(self)@.len() ==> {
                let m = updated(
                    old(self)@[id - 1],
                    match original_url {
                        Some(u) => Some(u@),
                        None => None,
                    },
                    status,
                    is_deleted,
                    expires_at,
                    now,
                );
                &&& r is Ok
                &&& r->Ok_0@ == m
                &&& final(self)@ == old(self)@.update(id - 1, m)
            },
            update_problem(
                match original_url {
                    Some(u) => Some(u@),
                    None => None,
                },
                status,
                is_deleted,
            ) is None && !(1 <= id <= old(self)@.len()) ==> r is Err && r->Err_0 is NotFound
                && final(self)@ == old(self)@,
    {
        let checked = match &original_url {
            Some(u) => validate_update(Some(u.as_str()), status, is_deleted),
            None => validate_update(None, status, is_deleted),
        };
        if let Err(e) = checked {
            return Err(e);
        }
        let model = match self.find_by_id(id) {
            Ok(model) => model,
            Err(e) => return Err(e),
        };
        let m = apply_update(model, original_url, status, is_deleted, expires_at, now);
        let out = m.duplicate();
        let n = self.records.len();
        assert(id <= n);
        let i = (id - 1) as usize;
        self.records[i] = m;
        proof {
            assert(self@ =~= old(self)@.update(id - 1, out@));
        }
        Ok(out)
    }

    /// Marks the record with `id` deleted and disabled at `now`.
    pub fn soft_delete(&mut self, id: i64, now: Timestamp) -> (r: Result<(), AppError>)
        requires
            old(self).wf(),
        ensures
            final(self).wf(),
            1 <= id <= old(self)@.len() ==> r is Ok && final(self)@ == old(self)@.update(
                id - 1,
                soft_deleted(old(self)@[id - 1], now),
            ),
            !(1 <= id <= old(self)@.len()) ==> r is Err && r->Err_0 is NotFound && final(self)@
                == old(self)@,
    {
        let model = match self.find_by_id(id) {
            Ok(model) => model,
            Err(e) => return Err(e),
        };
        let m = mark_deleted(model, now);
        let n = self.records.len();
        assert(id <= n);
        let i = (id - 1) as usize;
        let ghost mv = m@;
        self.records[i] = m;
        proof {
            assert(self@ =~= old(self)@.update(id - 1, mv));
        }
        Ok(())
    }
}

/// Different non-negative ids have different codes.
pub proof fn lemma_codes_distinct(a: i64, b: i64)
    requires
        a >= 0,
        b >= 0,
        a != b,
    ensures
        code_of(a) != code_of(b),
{
    lemma_round_trip(a);
    lemma_round_trip(b);
    if code_of(a) == code_of(b) {
        let ea = encode_value(a);
        let eb = encode_value(b);
        assert(ascii_chars(ea).len() == ea.len());
        assert(ascii_chars(eb).len() == eb.len());
        assert forall|i: int| 0 <= i < ea.len() implies ea[i] == eb[i] by {
            assert(ascii_chars(ea)[i] == ascii_chars(eb)[i]);
            assert(ascii_chars(ea)[i] == ea[i] as char);
            assert(ascii_chars(eb)[i] == eb[i] as char);
            assert((ea[i] as char) as u32 == ea[i] as u32);
            assert((eb[i] as char) as u32 == eb[i] as u32);
        }
        assert(ea =~= eb);
    }
}

/// At most one record of a well-formed store is found by a code.
pub proof fn lemma_code_unique(s: Seq<ModelView>, code: Seq<char>)
    requires
        store_invariant(s),
    ensures
        forall|i: int, j: int|
            0 <= i < s.len() && 0 <= j < s.len() && code_filter(#[trigger] s[i], code)
                && code_filter(#[trigger] s[j], code) ==> i == j,
{
    assert forall|i: int, j: int|
        0 <= i < s.len() && 0 <= j < s.len() && code_filter(#[trigger] s[i], code)
            && code_filter(#[trigger] s[j], code) implies i == j by {
        if i != j {
            lemma_codes_distinct(s[i].id, s[j].id);
        }
    }
}

/// Creating a record keeps the store well formed; the new record has no
/// visits, its code finds it and no other record, and one visit later its
/// count is one.
pub proof fn lemma_created_found_by_code(
    s: Seq<ModelView>,
    original_url: Seq<char>,
    expires_at: Option<Timestamp>,
    now: Timestamp,
    later: Timestamp,
)
    requires
        store_invariant(s),
        s.len() < i64::MAX,
    ensures
        ({
            let m = created(s.len() as int, original_url, expires_at, now);
            let t = s.push(m);
            &&& store_invariant(t)
            &&& m.visit_count == 0
            &&& visited(m, later).visit_count == 1
            &&& forall|i: int|
                0 <= i < t.len() ==> (code_filter(#[trigger] t[i], code_of(m.id)) <==> i == s.len())
        }),
{
    let m = created(s.len() as int, original_url, expires_at, now);
    let t = s.push(m);
    assert forall|i: int| 0 <= i < t.len() implies (code_filter(#[trigger] t[i], code_of(m.id))
        <==> i == s.len()) by {
        if i < s.len() {
            assert(t[i] == s[i]);
            lemma_codes_distinct(s[i].id, m.id);
        }
    }
}

proof fn lemma_newest_first_unfiltered(s: Seq<ModelView>)
    ensures
        newest_first(s, None, None).len() == s.len(),
        forall|k: int|
            0 <= k < s.len() ==> #[trigger] newest_first(s, None, None)[k] == s[s.len() - 1 - k],
    decreases s.len(),
{
    if s.len() > 0 {
        lemma_newest_first_unfiltered(s.drop_last());
        let n = newest_first(s, None, None);
        assert(n == seq![s.last()] + newest_first(s.drop_last(), None, None));
        assert forall|k: int| 0 <= k < s.len() implies #[trigger] n[k] == s[s.len() - 1 - k] by {
            if k > 0 {
                assert(n[k] == newest_first(s.drop_last(), None, None)[k - 1]);
            }
        }
    }
}

/// Without filters the listing holds every record with the highest id
/// first, and a page after `offset` holds `limit` of them, or what is left
/// after `offset` when that is fewer.
pub proof fn lemma_unfiltered_listing(s: Seq<ModelView>, offset: int, limit: int)
    requires
        store_invariant(s),
        offset >= 0,
        limit >= 0,
    ensures
        newest_first(s, None, None).len() == s.len(),
        forall|k: int|
            0 <= k < s.len() ==> (#[trigger] newest_first(s, None, None)[k]).id == s.len() - k,
        page(newest_first(s, None, None), offset, limit).len() == if offset >= s.len() {
            0
        } else if offset + limit <= s.len() {
            limit
        } else {
            s.len() - offset
        },
{
    lemma_newest_first_unfiltered(s);
    assert forall|k: int| 0 <= k < s.len() implies (#[trigger] newest_first(s, None, None)[k]).id
        == s.len() - k by {
        assert(s[s.len() - 1 - k].id == s.len() - k);
    }
}

/// Visits are not lost: two visits in turn raise the count by two and touch
/// no other record.
pub proof fn lemma_two_visits(s: Seq<ModelView>, i: int, first: Timestamp, second: Timestamp)
    requires
        0 <= i < s.len(),
        s[i].visit_count + 2 <= i64::MAX,
    ensures
        ({
            let once = s.update(i, visited(s[i], first));
            let twice = once.update(i, visited(once[i], second));
            &&& twice[i].visit_count == s[i].visit_count + 2
            &&& forall|j: int| 0 <= j < s.len() && j != i ==> twice[j] == s[j]
        }),
{
}

/// A deleted record is found by no code lookup for its code, while the lookup
/// by its id still finds it.
pub proof fn lemma_deleted_hidden(s: Seq<ModelView>, i: int)
    requires
        store_invariant(s),
        0 <= i < s.len(),
        s[i].is_deleted != NOT_DELETED,
    ensures
        forall|j: int| 0 <= j < s.len() ==> !code_filter(#[trigger] s[j], code_of(s[i].id)),
        1 <= s[i].id <= s.len(),
        s[s[i].id - 1] == s[i],
{
    assert forall|j: int| 0 <= j < s.len() implies !code_filter(
        #[trigger] s[j],
        code_of(s[i].id),
    ) by {
        if j != i {
            lemma_codes_distinct(s[i].id, s[j].id);
        }
    }
}

/// An active, undeleted record that has expired passes the code lookup's
/// filters, is the only record that does, and so resolves to `Gone`.
pub proof fn lemma_expired_is_gone(s: Seq<ModelView>, i: int, now: Timestamp)
    requires
        store_invariant(s),
        0 <= i < s.len(),
        is_listed_active(s[i]),
        is_expired(s[i], now),
    ensures
        code_filter(s[i], code_of(s[i].id)),
        forall|j: int| 0 <= j < s.len() && code_filter(#[trigger] s[j], code_of(s[i].id)) ==> j == i,
        exists|j: int|
            0 <= j < s.len() && code_filter(s[j], code_of(s[i].id)) && is_expired(s[j], now),
{
    lemma_code_unique(s, code_of(s[i].id));
}

/// Setting the deletion flag through an update stamps the record and keeps
/// its status unless one is supplied; clearing it in a later update clears
/// the stamp.
pub proof fn lemma_update_deletion_flag(
    m: ModelView,
    status: Option<i16>,
    first: Timestamp,
    second: Timestamp,
)
    ensures
        ({
            let d = updated(m, None, status, Some(DELETED), None, first);
            &&& d.deleted_at == Some(first)
            &&& d.status == (match status {
                Some(st) => st,
                None => m.status,
            })
            &&& updated(d, None, None, Some(NOT_DELETED), None, second).deleted_at is None
        }),
{
}

} // verus!
