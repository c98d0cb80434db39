//! Calendar text for a point in time, as the `chrono` crate writes it.

use chrono::DateTime;
use vstd::prelude::*;

verus! {

/// The text that `chrono` writes, after the given pattern, for the moment
/// `secs` seconds after 1970-01-01 00:00 UTC; `None` for a moment that lies
/// beyond the dates it can hold.
pub uninterp spec fn utc_text_of(secs: int, pattern: Seq<char>) -> Option<Seq<char>>;

/// The pattern for a date with hours and minutes.
pub open spec fn minute_pattern() -> Seq<char> {
    "%Y-%m-%d %H:%M"@
}

/// The pattern for a date with hours, minutes and seconds.
pub open spec fn second_pattern() -> Seq<char> {
    "%Y-%m-%d %H:%M:%S"@
}

/// Writes a moment in UTC after one of the two patterns of this module.
///
/// Calls `chrono::DateTime::from_timestamp` with no nanoseconds, which gives
/// `None` for a moment out of range, and `DateTime::format` with the
/// pattern. The contract only gives the result its name: the same seconds
/// and pattern always give the same text. The patterns admitted are the two
/// that are known to be well formed, so that writing the text cannot fail.
#[verifier::external_body]
pub(crate) fn utc_text(secs: i64, pattern: &str) -> (r: Option<String>)
    requires
        pattern@ == minute_pattern() || pattern@ == second_pattern(),
    ensures
        match r {
            Some(text) => utc_text_of(secs as int, pattern@) == Some(text@),
            None => utc_text_of(secs as int, pattern@) is None,
        },
{
    match DateTime::from_timestamp(secs, 0) {
        Some(moment) => Some(moment.format(pattern).to_string()),
        None => None,
    }
}

} // verus!
