//! Instants in UTC and the calls into chrono that produce them.
use vstd::prelude::*;

verus! {

/// A point in time: seconds since the Unix epoch in UTC, and the nanoseconds
/// within that second.
#[derive(Debug, Clone, Copy, PartialEq, Eq, Structural)]
pub struct UtcInstant {
    pub secs: i64,
    pub nanos: u32,
}

/// `a` lies strictly after `b`.
pub open spec fn is_after(a: UtcInstant, b: UtcInstant) -> bool {
    a.secs > b.secs || (a.secs == b.secs && a.nanos > b.nanos)
}

/// Strict "later than" on instants.
pub fn later_than(a: UtcInstant, b: UtcInstant) -> (r: bool)
    ensures
        r == is_after(a, b),
{
    a.secs > b.secs || (a.secs == b.secs && a.nanos > b.nanos)
}

/// The instant (seconds, nanoseconds) that an RFC 3339 text denotes, if it is one.
pub uninterp spec fn rfc3339_instant(s: Seq<char>) -> Option<(i64, u32)>;

/// The instant (seconds, nanoseconds) that an RFC 2822 text denotes, if it is one.
pub uninterp spec fn rfc2822_instant(s: Seq<char>) -> Option<(i64, u32)>;

/// The instant that a zone-less text denotes when read with a strftime-style
/// pattern and taken as UTC, if the pattern reads it.
pub uninterp spec fn naive_utc_instant(s: Seq<char>, pattern: Seq<char>) -> Option<(i64, u32)>;

/// The text "YYYY-MM-DD HH:MM:SS" of a whole second in UTC, where it is representable.
pub uninterp spec fn utc_text(secs: i64) -> Option<Seq<char>>;

/// Relies on chrono::DateTime::parse_from_rfc3339; the offset is folded into the
/// epoch seconds that `timestamp` gives.
#[verifier::external_body]
pub(crate) fn parse_rfc3339(s: &str) -> (r: Option<(i64, u32)>)
    ensures
        r == rfc3339_instant(s@),
{
    match chrono::DateTime::parse_from_rfc3339(s) {
        Ok(dt) => Some((dt.timestamp(), dt.timestamp_subsec_nanos())),
        Err(_) => None,
    }
}

/// Relies on chrono::DateTime::parse_from_rfc2822.
#[verifier::external_body]
pub(crate) fn parse_rfc2822(s: &str) -> (r: Option<(i64, u32)>)
    ensures
        r == rfc2822_instant(s@),
{
    match chrono::DateTime::parse_from_rfc2822(s) {
        Ok(dt) => Some((dt.timestamp(), dt.timestamp_subsec_nanos())),
        Err(_) => None,
    }
}

/// Relies on chrono::NaiveDateTime::parse_from_str, read as UTC by `and_utc`.
#[verifier::external_body]
pub(crate) fn parse_naive_utc(s: &str, pattern: &str) -> (r: Option<(i64, u32)>)
    ensures
        r == naive_utc_instant(s@, pattern@),
{
    match chrono::NaiveDateTime::parse_from_str(s, pattern) {
        Ok(dt) => {
            let utc = dt.and_utc();
            Some((utc.timestamp(), utc.timestamp_subsec_nanos()))
        },
        Err(_) => None,
    }
}

/// Relies on chrono::Utc::now: the current wall-clock time. Nothing is known of it.
#[verifier::external_body]
pub(crate) fn utc_now() -> (r: UtcInstant) {
    let now = chrono::Utc::now();
    UtcInstant { secs: now.timestamp(), nanos: now.timestamp_subsec_nanos() }
}

/// Relies on chrono::DateTime::from_timestamp and the `Display` of its naive UTC
/// part, which writes a whole second as "YYYY-MM-DD HH:MM:SS".
#[verifier::external_body]
pub(crate) fn format_utc_seconds(secs: i64) -> (r: Option<String>)
    ensures
        r.is_some() == utc_text(secs).is_some(),
        r.is_some() ==> r.unwrap()@ == utc_text(secs).unwrap(),
{
    match chrono::DateTime::from_timestamp(secs, 0) {
        Some(dt) => Some(dt.naive_utc().to_string()),
        None => None,
    }
}

} // verus!
