//! RFC 3339 timestamps (from `chrono`), as the worker stores its schedule.
use vstd::prelude::*;

verus! {

/// What `chrono` writes for the UTC instant `secs` seconds after the Unix
/// epoch with `Utc.timestamp_opt(secs, 0).single()` and `to_rfc3339`; `None`
/// when chrono cannot represent that instant.
pub uninterp spec fn spec_utc_rfc3339(secs: i64) -> Option<Seq<char>>;

/// What `chrono::DateTime::parse_from_rfc3339` reads from a text, as seconds
/// since the Unix epoch (`timestamp`); `None` when the text is not RFC 3339.
pub uninterp spec fn spec_rfc3339_seconds(text: Seq<char>) -> Option<i64>;

/// `Utc.timestamp_opt(secs, 0).single()` followed by `to_rfc3339`; the result
/// is named by `spec_utc_rfc3339`.
#[verifier::external_body]
pub(crate) fn utc_rfc3339(secs: i64) -> (r: Option<String>)
    ensures
        match r {
            Some(s) => spec_utc_rfc3339(secs) == Some(s@),
            None => spec_utc_rfc3339(secs) is None,
        },
{
    match chrono::TimeZone::timestamp_opt(&chrono::Utc, secs, 0).single() {
        Some(dt) => Some(dt.to_rfc3339()),
        None => None,
    }
}

/// The current UTC time as RFC 3339 (`Utc::now().to_rfc3339()`); it depends on
/// the clock, so nothing is promised of it.
#[verifier::external_body]
pub(crate) fn utc_now_rfc3339() -> (r: String) {
    chrono::Utc::now().to_rfc3339()
}

/// `DateTime::parse_from_rfc3339(text)` followed by `timestamp`; the result is
/// named by `spec_rfc3339_seconds`.
#[verifier::external_body]
pub(crate) fn rfc3339_seconds(text: &str) -> (r: Option<i64>)
    ensures
        r == spec_rfc3339_seconds(text@),
{
    match chrono::DateTime::parse_from_rfc3339(text) {
        Ok(dt) => Some(dt.timestamp()),
        Err(_) => None,
    }
}

} // verus!
