use vstd::prelude::*;

use chrono::TimeZone;

verus! {

/// Whether the instant `t` (epoch seconds) lies more than `secs` seconds
/// before `now`. On arithmetic overflow the deadline is treated as not yet
/// reached, since a sum beyond the representable range cannot lie in the
/// past.
pub fn has_expired(t: i64, secs: i64, now: i64) -> (r: bool)
    requires
        secs >= 0,
    ensures
        r == (t + secs < now),
{
    match t.checked_add(secs) {
        Some(deadline) => deadline < now,
        None => false,
    }
}

/// The epoch-second reading of an RFC 3339 datetime string, or `None` when
/// the string does not parse. What this function returns on a given string
/// is fixed by the text format alone; contracts refer to it by this name.
pub uninterp spec fn ts_of_rfc3339(s: Seq<char>) -> Option<i64>;

/// Parse an RFC 3339 datetime (as the remote API sends timestamps) into
/// epoch seconds; `None` when the text is not a valid RFC 3339 datetime.
///
/// Relies on chrono's `DateTime::parse_from_rfc3339` and
/// `DateTime::timestamp`: both are pure functions of the input string.
#[verifier::external_body]
pub fn datetime_to_ts(datetime: &str) -> (r: Option<i64>)
    ensures
        r == ts_of_rfc3339(datetime@),
{
    match chrono::DateTime::parse_from_rfc3339(datetime) {
        Ok(parsed) => Some(parsed.timestamp()),
        Err(_) => None,
    }
}

/// The RFC 3339 rendering of an epoch-second instant in UTC, or `None` when
/// the instant lies outside chrono's representable range. A pure function of
/// the timestamp; contracts refer to it by this name.
pub uninterp spec fn rfc3339_of(ts: i64) -> Option<Seq<char>>;

/// Render an epoch-second instant as RFC 3339 text in UTC.
///
/// Relies on chrono's `TimeZone::timestamp_opt` for `Utc`, which maps an
/// in-range timestamp to exactly one instant, and `DateTime::to_rfc3339`:
/// both are pure functions of the timestamp.
#[verifier::external_body]
fn format_rfc3339(ts: i64) -> (r: Option<String>)
    ensures
        r is Some <==> rfc3339_of(ts) is Some,
        r matches Some(s) ==> Some(s@) == rfc3339_of(ts),
{
    match chrono::Utc.timestamp_opt(ts, 0) {
        chrono::LocalResult::Single(parsed) => Some(parsed.to_rfc3339()),
        _ => None,
    }
}

/// Render a positive epoch-second instant as RFC 3339 text; non-positive
/// instants are the "never refreshed" sentinel and are rejected, as is an
/// instant outside the representable range.
pub fn ts_to_datetime(ts: i64) -> (r: Result<String, ()>)
    ensures
        ts <= 0 ==> r is Err,
        ts > 0 ==> match rfc3339_of(ts) {
            Some(v) => r matches Ok(s) && s@ == v,
            None => r is Err,
        },
{
    if ts <= 0 {
        return Err(());
    }
    match format_rfc3339(ts) {
        Some(s) => Ok(s),
        None => Err(()),
    }
}

} // verus!
