//! Reading the clock and calendar arithmetic, through chrono.

use vstd::prelude::*;

verus! {

/// The earliest timestamp chrono represents: -262143-01-01T00:00:00Z, the
/// first instant of its smallest year.
pub const EARLIEST_TIMESTAMP: i64 = -8_334_601_228_800;

/// The latest whole-second timestamp chrono represents:
/// +262142-12-31T23:59:59Z, the last second of its largest year.
pub const LATEST_TIMESTAMP: i64 = 8_210_266_876_799;

/// The current time in whole seconds since the Unix epoch, from
/// `chrono::Utc::now().timestamp()`.
///
/// The contract claims only that the value is one chrono represents and not
/// before the epoch: `Utc::now` panics when the system clock reads before
/// the epoch or beyond what chrono represents.  Which second it is depends
/// on the clock and is not stated.
#[verifier::external_body]
pub fn now_timestamp() -> (t: i64)
    ensures
        0 <= t <= LATEST_TIMESTAMP,
{
    chrono::Utc::now().timestamp()
}

/// The timestamp `days` days after `timestamp` (seconds since the epoch,
/// UTC), where both instants lie in the calendar chrono represents.
pub open spec fn timestamp_days_later(timestamp: i64, days: u64) -> Option<i64> {
    if EARLIEST_TIMESTAMP <= timestamp <= LATEST_TIMESTAMP && timestamp + days * 86400
        <= LATEST_TIMESTAMP {
        Some((timestamp + days * 86400) as i64)
    } else {
        None
    }
}

/// The timestamp `days` days after `timestamp`, computed by chrono:
/// `DateTime::<Utc>::from_timestamp(timestamp, 0)` followed by
/// `checked_add_days(Days::new(days))` and `timestamp()`.
///
/// The contract claims what chrono's source does: `from_timestamp` gives a
/// date exactly for the timestamps from [`EARLIEST_TIMESTAMP`] to
/// [`LATEST_TIMESTAMP`]; adding days keeps the time of day (UTC has no
/// daylight saving shifts), so the result lies `days` times 86400 seconds
/// later, and it is refused exactly when its date passes chrono's last one.
#[verifier::external_body]
pub fn days_later(timestamp: i64, days: u64) -> (r: Option<i64>)
    ensures
        r == timestamp_days_later(timestamp, days),
{
    match chrono::DateTime::<chrono::Utc>::from_timestamp(timestamp, 0) {
        Some(start) => match start.checked_add_days(chrono::Days::new(days)) {
            Some(end) => Some(end.timestamp()),
            None => None,
        },
        None => None,
    }
}

} // verus!
