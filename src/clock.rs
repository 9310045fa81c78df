//! Access to the wall clock and to the machine's time zone.
//!
//! Instants are milliseconds since the Unix epoch (UTC). Both functions read
//! state outside the program, so nothing is promised about which value comes
//! back beyond the range that the clock library guarantees; every decision
//! that depends on them is made by a verified function that takes the value
//! as an argument.

use chrono::{DateTime, Local, TimeZone, Utc};
use vstd::prelude::*;

verus! {

/// Relies on `chrono::Utc::now` and `DateTime::timestamp_millis`: the current
/// wall-clock time in milliseconds since the Unix epoch.
#[verifier::external_body]
pub fn now_millis() -> (r: i64) {
    Utc::now().timestamp_millis()
}

/// Relies on `chrono::DateTime::from_timestamp_millis`, `Local`'s
/// `TimeZone::offset_from_utc_datetime` and `FixedOffset::local_minus_utc`:
/// the number of seconds to add to the UTC instant `utc_millis` to get the
/// machine's local time at that instant. `None` when the instant lies outside
/// the range that chrono can represent. Every `FixedOffset` is built through
/// `east_opt`, which only accepts offsets strictly inside one day.
#[verifier::external_body]
pub fn local_offset_seconds(utc_millis: i64) -> (r: Option<i32>)
    ensures
        r matches Some(offset) ==> -86_400 < offset < 86_400,
{
    match DateTime::from_timestamp_millis(utc_millis) {
        Some(instant) => Some(Local.offset_from_utc_datetime(&instant.naive_utc()).local_minus_utc()),
        None => None,
    }
}

} // verus!
