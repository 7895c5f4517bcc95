use vstd::prelude::*;

verus! {

/// An instant as seconds and nanoseconds since 1970-01-01T00:00:00Z.
#[derive(Debug, Clone, Copy, PartialEq, Eq, Structural)]
pub struct Timestamp {
    pub secs: i64,
    pub nanos: u32,
}

/// The instant, as (seconds, nanoseconds) since the Unix epoch, that chrono reads from
/// `s` as a UTC date and time, if it reads one.
pub uninterp spec fn utc_instant_of(s: Seq<char>) -> Option<(i64, u32)>;

/// The timestamp for a parsed instant.
pub open spec fn timestamp_of(t: Option<(i64, u32)>) -> Option<Timestamp> {
    match t {
        Some((secs, nanos)) => Some(Timestamp { secs, nanos }),
        None => None,
    }
}

/// Relies on `chrono`'s `FromStr` for `DateTime<Utc>` (a relaxed RFC 3339 reader), then
/// on `DateTime::timestamp` and `DateTime::timestamp_subsec_nanos`.
#[verifier::external_body]
pub(crate) fn parse_utc(s: &str) -> (r: Option<Timestamp>)
    ensures
        r == timestamp_of(utc_instant_of(s@)),
{
    match s.parse::<chrono::DateTime<chrono::Utc>>() {
        Ok(t) => Some(Timestamp { secs: t.timestamp(), nanos: t.timestamp_subsec_nanos() }),
        Err(_) => None,
    }
}

impl Timestamp {
    pub fn new(secs: i64, nanos: u32) -> (r: Timestamp)
        ensures
            r == (Timestamp { secs, nanos }),
    {
        Timestamp { secs, nanos }
    }
}

} // verus!
