//! The time of day.

use vstd::prelude::*;

verus! {

/// `chrono::Utc::now`: the microseconds since 1970. The dates that `chrono`
/// can hold end before the year 262144 on either side.
#[verifier::external_body]
pub(crate) fn utc_now_micros() -> (r: i64)
    ensures
        -8_400_000_000_000_000_000 <= r <= 8_400_000_000_000_000_000,
{
    chrono::Utc::now().timestamp_micros()
}

/// The moment that an RFC 3339 text names: seconds since 1970 and nanoseconds.
pub uninterp spec fn rfc3339_of(text: Seq<char>) -> Option<(i64, u32)>;

/// `chrono::DateTime::parse_from_rfc3339`: the moment that a text names, in
/// seconds since 1970 and nanoseconds, or nothing where it is no such text.
#[verifier::external_body]
pub(crate) fn parse_rfc3339(text: &str) -> (r: Option<(i64, u32)>)
    ensures
        r == rfc3339_of(text@),
{
    let moment = chrono::DateTime::parse_from_rfc3339(text).ok();
    moment.map(|t| (t.timestamp(), t.timestamp_subsec_nanos()))
}

/// The notation of times in listings.
pub const LISTING_TIME: &'static str = "%Y-%m-%d %H:%M:%S%.3f";

/// A moment as text, in UTC.
pub uninterp spec fn utc_text_of(secs: i64, nanos: u32, notation: Seq<char>) -> Option<Seq<char>>;

/// `chrono::DateTime::format` in UTC: a moment in the notation of listings, or
/// nothing where `chrono` cannot hold it. On a notation that it does not know
/// `chrono` panics; this one it knows.
#[verifier::external_body]
pub(crate) fn utc_text(secs: i64, nanos: u32, notation: &str) -> (r: Option<String>)
    requires
        notation@ == LISTING_TIME@,
    ensures
        match r {
            Some(s) => utc_text_of(secs, nanos, notation@) == Some(s@),
            None => utc_text_of(secs, nanos, notation@) is None,
        },
{
    let moment = chrono::DateTime::<chrono::Utc>::from_timestamp(secs, nanos);
    moment.map(|t| t.format(notation).to_string())
}

} // verus!
