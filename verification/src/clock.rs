//! Time handling: timestamps are plain milliseconds since the Unix
//! epoch everywhere in this crate; only the two wrappers below touch
//! a calendar library or the real clock.

use vstd::prelude::*;

verus! {

/// The instant, in milliseconds since the Unix epoch, that an
/// ISO-8601 timestamp text denotes, or `None` when the text does not
/// parse; a function of the text alone.
pub uninterp spec fn ts_millis_of(s: Seq<char>) -> Option<i64>;

/// Relies on `chrono::DateTime::<Utc>::from_str`: parsing an ISO-8601
/// timestamp is deterministic in the text.
#[verifier::external_body]
pub(crate) fn parse_timestamp_millis(s: &str) -> (r: Option<i64>)
    ensures
        r == ts_millis_of(s@),
{
    s.parse::<chrono::DateTime<chrono::Utc>>().ok().map(|d| d.timestamp_millis())
}

/// Relies on `chrono::Utc::now`; nothing is assumed of the clock's
/// value.
#[verifier::external_body]
pub fn now_millis() -> i64 {
    chrono::Utc::now().timestamp_millis()
}

} // verus!
