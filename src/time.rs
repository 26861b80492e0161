//! Instants as plain integers, and the clock and parser they come from.
use vstd::prelude::*;

verus! {

/// An instant: whole seconds since the Unix epoch and the nanoseconds past
/// them (above one billion within a leap second), with the UTC offset in
/// seconds that it was written in.
#[derive(Clone, Copy, Debug, PartialEq, Eq, Structural)]
pub struct Timestamp {
    pub seconds: i64,
    pub nanos: u32,
    pub offset_seconds: i32,
}

/// `a` is not later than `b`; offsets play no part.
pub open spec fn not_after(a: Timestamp, b: Timestamp) -> bool {
    a.seconds < b.seconds || (a.seconds == b.seconds && a.nanos <= b.nanos)
}

impl Timestamp {
    /// Whether this instant is not later than `other`.
    pub fn is_not_after(&self, other: &Timestamp) -> (r: bool)
        ensures
            r == not_after(*self, *other),
    {
        self.seconds < other.seconds || (self.seconds == other.seconds && self.nanos <= other.nanos)
    }
}

/// The seconds, nanoseconds and offset of an RFC 3339 date and time, or
/// `None` where the text is not one.
pub uninterp spec fn rfc3339_parts(s: Seq<char>) -> Option<(i64, u32, i32)>;

/// Relies on chrono's `DateTime::parse_from_rfc3339`; the parts are read with
/// `timestamp`, `timestamp_subsec_nanos` and `FixedOffset::local_minus_utc`.
#[verifier::external_body]
pub fn parse_rfc3339(s: &str) -> (r: Option<Timestamp>)
    ensures
        match rfc3339_parts(s@) {
            None => r is None,
            Some(p) => r == Some(
                (Timestamp { seconds: p.0, nanos: p.1, offset_seconds: p.2 }),
            ),
        },
{
    chrono::DateTime::parse_from_rfc3339(s).ok().map(
        |d| Timestamp {
            seconds: d.timestamp(),
            nanos: d.timestamp_subsec_nanos(),
            offset_seconds: d.offset().local_minus_utc(),
        },
    )
}

/// Relies on chrono's `Utc::now`: the current instant, in UTC.
#[verifier::external_body]
pub fn now() -> (r: Timestamp)
    ensures
        r.offset_seconds == 0,
{
    let t = chrono::Utc::now();
    Timestamp { seconds: t.timestamp(), nanos: t.timestamp_subsec_nanos(), offset_seconds: 0 }
}

} // verus!
