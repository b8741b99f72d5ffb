//! Reading instants out of the transit service's timestamp texts, and
//! the current instant, through chrono.

use vstd::prelude::*;

verus! {

/// What chrono reads out of a timestamp text in the format
/// `%Y-%m-%dT%H:%M:%S%z`: the instant in seconds since the Unix epoch,
/// or `None` for a text that does not match the format.
pub uninterp spec fn epoch_seconds_of(s: Seq<char>) -> Option<i64>;

/// Relies on chrono's `DateTime::parse_from_str` with the format
/// `%Y-%m-%dT%H:%M:%S%z`, and on `DateTime::timestamp`: reading a
/// timestamp text with an explicit offset as an instant, counted in
/// seconds since the Unix epoch. The result depends on the text alone.
#[verifier::external_body]
pub(crate) fn parse_epoch_seconds(s: &str) -> (r: Option<i64>)
    ensures
        r == epoch_seconds_of(s@),
{
    match chrono::DateTime::parse_from_str(s, "%Y-%m-%dT%H:%M:%S%z") {
        Ok(t) => Some(t.timestamp()),
        Err(_) => None,
    }
}

/// Relies on chrono's `Utc::now` and `DateTime::timestamp`: the current
/// instant in seconds since the Unix epoch. Nothing is assumed of what
/// the clock reads.
#[verifier::external_body]
pub(crate) fn current_epoch_seconds() -> (r: i64) {
    chrono::Utc::now().timestamp()
}

} // verus!
