//! The wall clock, as the station's clock command needs it.

use vstd::prelude::*;

verus! {

/// The most milliseconds that a time of day can lie after midnight, a leap
/// second included.
pub const DAY_MILLIS_MAX: i64 = 86_400_999;

/// A bound on the days between a day of a four-digit year and any date
/// that the calendar can hold.
pub const DAYS_MAX: i64 = 100_000_000;

/// Reads the local date and time of day, as whole days since day
/// `epoch_day` of the year `epoch_year` and whole milliseconds since local
/// midnight.
///
/// Calls `chrono::Local::now`, and takes the reading apart with
/// `DateTime::date_naive`, `DateTime::time`, `NaiveDate::from_yo_opt`, the
/// two subtractions and `TimeDelta::num_days` / `num_milliseconds`. The
/// reading depends on when it is taken, so the contract states only its
/// range: a time of day is less than a day and one leap second past
/// midnight, and the calendar's years lie within 262 143 of year zero, which
/// bounds the days. `chrono` reads the system clock and stops the program
/// where that clock is set before 1970.
#[verifier::external_body]
pub(crate) fn local_days_and_millis(epoch_year: i32, epoch_day: u32) -> (res: (i64, i64))
    requires
        0 <= epoch_year <= 9999,
        1 <= epoch_day <= 365,
    ensures
        -DAYS_MAX <= res.0 <= DAYS_MAX,
        0 <= res.1 <= DAY_MILLIS_MAX,
{
    let epoch = chrono::NaiveDate::from_yo_opt(epoch_year, epoch_day).unwrap();
    let now = chrono::Local::now();
    let days = (now.date_naive() - epoch).num_days();
    let millis = (now.time() - chrono::NaiveTime::MIN).num_milliseconds();
    (days, millis)
}

/// The local date and time as text, in the RFC 3339 form with the zone's
/// offset.
///
/// Calls `chrono::Local::now` and `DateTime::to_rfc3339`. The text depends on
/// when it is made, so the contract promises nothing of it.
#[verifier::external_body]
pub(crate) fn local_timestamp() -> (res: String) {
    chrono::Local::now().to_rfc3339()
}

} // verus!
