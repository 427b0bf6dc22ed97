//! Calendar readings, taken from the `chrono` crate.
//!
//! Nothing in this file is proved. It says what the library takes from
//! `chrono`: the six components of a date and time, each within the range
//! that `chrono` documents, and the time of the system clock.

use vstd::prelude::*;

verus! {

/// `chrono::NaiveDateTime`, a calendar date and time of day without a time
/// zone. Nothing of its inside is visible here.
#[verifier::external_type_specification]
#[verifier::external_body]
pub struct ExNaiveDateTime(chrono::NaiveDateTime);

/// The year that `chrono` reads off a date and time.
pub uninterp spec fn civil_year(datetime: chrono::NaiveDateTime) -> i32;

/// The month that `chrono` reads off a date and time.
pub uninterp spec fn civil_month(datetime: chrono::NaiveDateTime) -> u32;

/// The day of the month that `chrono` reads off a date and time.
pub uninterp spec fn civil_day(datetime: chrono::NaiveDateTime) -> u32;

/// The hour that `chrono` reads off a date and time.
pub uninterp spec fn civil_hour(datetime: chrono::NaiveDateTime) -> u32;

/// The minute that `chrono` reads off a date and time.
pub uninterp spec fn civil_minute(datetime: chrono::NaiveDateTime) -> u32;

/// The second that `chrono` reads off a date and time.
pub uninterp spec fn civil_second(datetime: chrono::NaiveDateTime) -> u32;

/// `Datelike::year` on a `NaiveDateTime`: the year of the calendar date.
/// Nothing is claimed of its range.
#[verifier::external_body]
pub(crate) fn year_of(datetime: &chrono::NaiveDateTime) -> (year: i32)
    ensures
        year == civil_year(*datetime),
{
    chrono::Datelike::year(datetime)
}

/// `Datelike::month` on a `NaiveDateTime`: the month, counted from 1 to 12.
#[verifier::external_body]
pub(crate) fn month_of(datetime: &chrono::NaiveDateTime) -> (month: u32)
    ensures
        month == civil_month(*datetime),
        1 <= month <= 12,
{
    chrono::Datelike::month(datetime)
}

/// `Datelike::day` on a `NaiveDateTime`: the day of the month, counted from 1
/// to 31.
#[verifier::external_body]
pub(crate) fn day_of(datetime: &chrono::NaiveDateTime) -> (day: u32)
    ensures
        day == civil_day(*datetime),
        1 <= day <= 31,
{
    chrono::Datelike::day(datetime)
}

/// `Timelike::hour` on a `NaiveDateTime`: the hour, from 0 to 23.
#[verifier::external_body]
pub(crate) fn hour_of(datetime: &chrono::NaiveDateTime) -> (hour: u32)
    ensures
        hour == civil_hour(*datetime),
        hour <= 23,
{
    chrono::Timelike::hour(datetime)
}

/// `Timelike::minute` on a `NaiveDateTime`: the minute, from 0 to 59.
#[verifier::external_body]
pub(crate) fn minute_of(datetime: &chrono::NaiveDateTime) -> (minute: u32)
    ensures
        minute == civil_minute(*datetime),
        minute <= 59,
{
    chrono::Timelike::minute(datetime)
}

/// `Timelike::second` on a `NaiveDateTime`: the second, from 0 to 59. A leap
/// second shows in the fraction, not here.
#[verifier::external_body]
pub(crate) fn second_of(datetime: &chrono::NaiveDateTime) -> (second: u32)
    ensures
        second == civil_second(*datetime),
        second <= 59,
{
    chrono::Timelike::second(datetime)
}

/// `Local::now`, read as a local calendar date and time by
/// `DateTime::naive_local`. The result follows the system clock and the
/// machine's time zone, so nothing is claimed of it. Both calls panic on a
/// clock that is far off: the first before 1970, the second at the very end
/// of the years that `chrono` can name.
#[verifier::external_body]
pub(crate) fn local_now() -> (now: chrono::NaiveDateTime) {
    chrono::Local::now().naive_local()
}

} // verus!
