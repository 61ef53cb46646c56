//! Calendar parsing, through `chrono`. Every instant in the library is a
//! count of unix seconds (`i64`).
use vstd::prelude::*;

verus! {

/// The unix seconds of an RFC 3339 date-time, as chrono parses it, or `None`
/// when chrono rejects the text.
pub uninterp spec fn rfc3339_seconds(s: Seq<char>) -> Option<int>;

/// The unix seconds of midnight UTC on a `YYYY-MM-DD` date, as chrono parses
/// it, or `None` when chrono rejects the text.
pub uninterp spec fn ymd_midnight_seconds(s: Seq<char>) -> Option<int>;

/// True when chrono can represent the instant `t` unix seconds.
pub uninterp spec fn representable_seconds(t: int) -> bool;

/// Relies on `chrono::DateTime::parse_from_rfc3339` and `DateTime::timestamp`:
/// parses an RFC 3339 date-time and gives its unix seconds.
#[verifier::external_body]
pub(crate) fn parse_rfc3339(s: &str) -> (r: Option<i64>)
    ensures
        r matches Some(t) ==> rfc3339_seconds(s@) == Some(t as int),
        r is None ==> rfc3339_seconds(s@) is None,
{
    chrono::DateTime::parse_from_rfc3339(s).ok().map(|dt| dt.timestamp())
}

/// Relies on `chrono::NaiveDate::parse_from_str` with `%Y-%m-%d`, then
/// `and_hms_opt(0, 0, 0)`, `and_utc` and `timestamp`: the unix seconds of
/// midnight UTC on that date.
#[verifier::external_body]
pub(crate) fn parse_ymd_date(s: &str) -> (r: Option<i64>)
    ensures
        r matches Some(t) ==> ymd_midnight_seconds(s@) == Some(t as int),
        r is None ==> ymd_midnight_seconds(s@) is None,
{
    chrono::NaiveDate::parse_from_str(s, "%Y-%m-%d")
        .ok()
        .and_then(|d| d.and_hms_opt(0, 0, 0))
        .map(|dt| dt.and_utc().timestamp())
}

/// Relies on `chrono::DateTime::from_timestamp(t, 0)`: `Some(t)` when chrono
/// can represent the instant, else `None`.
#[verifier::external_body]
pub(crate) fn checked_unix_seconds(t: i64) -> (r: Option<i64>)
    ensures
        r == (if representable_seconds(t as int) { Some(t) } else { None::<i64> }),
{
    chrono::DateTime::from_timestamp(t, 0).map(|dt| dt.timestamp())
}

} // verus!
