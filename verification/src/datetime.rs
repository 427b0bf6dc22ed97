//! The date and time of a member, and their packed MS-DOS form.

use crate::clock::{
    civil_day, civil_hour, civil_minute, civil_month, civil_second, civil_year, day_of, hour_of,
    local_now, minute_of, month_of, second_of, year_of,
};
use vstd::prelude::*;

verus! {

/// The (timezone-less) date and time written in the archive alongside a file.
///
/// `Zero` stands for the first instant that the format can name, midnight on
/// the first of January 1980, and is written as that date. `Custom` carries
/// the six calendar components as they are; none of them is validated.
#[derive(Copy, Clone, Eq, PartialEq, Debug, Structural)]
pub enum FileDateTime {
    /// 1980, January 1st, 12AM.
    Zero,
    /// (year, month, day, hour, minute, second)
    Custom {
        /// Year.
        year: u16,
        /// Month.
        month: u16,
        /// Day.
        day: u16,
        /// Hour (24 format).
        hour: u16,
        /// Minute.
        minute: u16,
        /// Second.
        second: u16,
    },
}

/// The packed date field: the day in bits 0 to 4, the month in bits 5 to 8 and
/// the years since 1980 in bits 9 to 15. Bits that do not fit are lost.
pub open spec fn dos_date(year: u16, month: u16, day: u16) -> u16 {
    let since: u16 = if year >= 1980 { (year - 1980) as u16 } else { 0u16 };
    day | (month << 5u16) | (since << 9u16)
}

/// The packed time field: the halved second in bits 0 to 4, the minute in
/// bits 5 to 10 and the hour in bits 11 to 15. Bits that do not fit are lost.
pub open spec fn dos_time(hour: u16, minute: u16, second: u16) -> u16 {
    (second / 2) | (minute << 5u16) | (hour << 11u16)
}

/// The year that a packed date names.
pub open spec fn dos_year(date: u16) -> int {
    1980 + (date >> 9u16)
}

/// The month that a packed date names.
pub open spec fn dos_month(date: u16) -> int {
    ((date >> 5u16) & 0xfu16) as int
}

/// The day of the month that a packed date names.
pub open spec fn dos_day(date: u16) -> int {
    (date & 0x1fu16) as int
}

/// The hour that a packed time names.
pub open spec fn dos_hour(time: u16) -> int {
    (time >> 11u16) as int
}

/// The minute that a packed time names.
pub open spec fn dos_minute(time: u16) -> int {
    ((time >> 5u16) & 0x3fu16) as int
}

/// The second that a packed time names: always even, as the field counts
/// steps of two seconds.
pub open spec fn dos_second(time: u16) -> int {
    2 * (time & 0x1fu16)
}

impl FileDateTime {
    /// The six components: year, month, day, hour, minute and second. Those
    /// of `Zero` are 1980, 1, 1, 0, 0 and 0.
    pub open spec fn components(self) -> (u16, u16, u16, u16, u16, u16) {
        match self {
            FileDateTime::Zero => (1980u16, 1u16, 1u16, 0u16, 0u16, 0u16),
            FileDateTime::Custom { year, month, day, hour, minute, second } => (
                year,
                month,
                day,
                hour,
                minute,
                second,
            ),
        }
    }

    /// The packed (date, time) pair of this value.
    pub open spec fn packed(self) -> (u16, u16) {
        let c = self.components();
        (dos_date(c.0, c.1, c.2), dos_time(c.3, c.4, c.5))
    }

    /// What `from_chrono_datetime` makes of the six readings of a calendar
    /// date and time: each is cut down to its low 16 bits.
    pub open spec fn of_civil(
        year: i32,
        month: u32,
        day: u32,
        hour: u32,
        minute: u32,
        second: u32,
    ) -> FileDateTime {
        FileDateTime::Custom {
            year: year as u16,
            month: month as u16,
            day: day as u16,
            hour: hour as u16,
            minute: minute as u16,
            second: second as u16,
        }
    }

    /// True of a `Custom` value whose month, day, hour, minute and second lie
    /// in the ranges of the calendar and the clock.
    pub open spec fn on_calendar(self) -> bool {
        match self {
            FileDateTime::Zero => false,
            FileDateTime::Custom { year, month, day, hour, minute, second } => {
                &&& 1 <= month <= 12
                &&& 1 <= day <= 31
                &&& hour <= 23
                &&& minute <= 59
                &&& second <= 59
            },
        }
    }

    /// Use the local date and time of the system.
    ///
    /// The value follows the clock, so the contract states only what holds of
    /// every reading. A system clock set before 1970 makes the reading panic.
    pub fn now() -> (now: FileDateTime)
        ensures
            now.on_calendar(),
    {
        Self::from_chrono_datetime(local_now())
    }

    /// Use a custom date and time, given as a `chrono` value without time
    /// zone. A year outside of `u16` keeps only its low 16 bits.
    pub fn from_chrono_datetime(datetime: chrono::NaiveDateTime) -> (custom: FileDateTime)
        ensures
            custom == Self::of_civil(
                civil_year(datetime),
                civil_month(datetime),
                civil_day(datetime),
                civil_hour(datetime),
                civil_minute(datetime),
                civil_second(datetime),
            ),
            custom.on_calendar(),
            custom->month == civil_month(datetime),
            custom->day == civil_day(datetime),
            custom->hour == civil_hour(datetime),
            custom->minute == civil_minute(datetime),
            custom->second == civil_second(datetime),
            0 <= civil_year(datetime) <= 0xffff ==> custom->year == civil_year(datetime),
    {
        Self::from_civil(
            year_of(&datetime),
            month_of(&datetime),
            day_of(&datetime),
            hour_of(&datetime),
            minute_of(&datetime),
            second_of(&datetime),
        )
    }

    /// Makes a `Custom` value of six calendar readings, each cut down to its
    /// low 16 bits.
    pub fn from_civil(
        year: i32,
        month: u32,
        day: u32,
        hour: u32,
        minute: u32,
        second: u32,
    ) -> (custom: FileDateTime)
        ensures
            custom == Self::of_civil(year, month, day, hour, minute, second),
            month <= 0xffff ==> custom->month == month,
            day <= 0xffff ==> custom->day == day,
            hour <= 0xffff ==> custom->hour == hour,
            minute <= 0xffff ==> custom->minute == minute,
            second <= 0xffff ==> custom->second == second,
            0 <= year <= 0xffff ==> custom->year == year,
    {
        FileDateTime::Custom {
            year: #[verifier::truncate] (year as u16),
            month: #[verifier::truncate] (month as u16),
            day: #[verifier::truncate] (day as u16),
            hour: #[verifier::truncate] (hour as u16),
            minute: #[verifier::truncate] (minute as u16),
            second: #[verifier::truncate] (second as u16),
        }
    }

    /// Returns (year, month, day, hour, minute, second); for `Zero`, those of
    /// the first of January 1980 at midnight.
    pub fn tuple(&self) -> (t: (u16, u16, u16, u16, u16, u16))
        ensures
            t == self.components(),
    {
        match *self {
            FileDateTime::Zero => (1980, 1, 1, 0, 0, 0),
            FileDateTime::Custom { year, month, day, hour, minute, second } => (
                year,
                month,
                day,
                hour,
                minute,
                second,
            ),
        }
    }

    /// Returns the packed MS-DOS (date, time) pair. That of `Zero` is
    /// `(0x0021, 0)`, the first of January 1980 at midnight.
    pub fn ms_dos(&self) -> (dt: (u16, u16))
        ensures
            dt == self.packed(),
            *self == FileDateTime::Zero ==> dt == (0x0021u16, 0u16),
    {
        proof {
            lemma_zero_is_first_of_january_1980();
        }
        let (year, month, day, hour, min, sec) = self.tuple();
        let since: u16 = if year >= 1980 { year - 1980 } else { 0 };
        (day | month << 5 | since << 9, (sec / 2) | min << 5 | hour << 11)
    }
}

/// `Zero` is written as the first of January 1980, at midnight: its packed
/// date is `0x0021`, month 1 and day 1 of the year 1980, and its packed time
/// is zero.
pub proof fn lemma_zero_is_first_of_january_1980()
    ensures
        FileDateTime::Zero.packed() == (0x0021u16, 0u16),
        dos_year(0x0021) == 1980,
        dos_month(0x0021) == 1,
        dos_day(0x0021) == 1,
        dos_hour(0) == 0,
        dos_minute(0) == 0,
        dos_second(0) == 0,
{
    assert(1u16 | (1u16 << 5u16) | (0u16 << 9u16) == 0x0021u16) by (bit_vector);
    assert((0u16 / 2) | (0u16 << 5u16) | (0u16 << 11u16) == 0u16) by (bit_vector);
    assert(0x0021u16 >> 9u16 == 0u16) by (bit_vector);
    assert((0x0021u16 >> 5u16) & 0xfu16 == 1u16) by (bit_vector);
    assert(0x0021u16 & 0x1fu16 == 1u16) by (bit_vector);
    assert(0u16 >> 11u16 == 0u16) by (bit_vector);
    assert((0u16 >> 5u16) & 0x3fu16 == 0u16) by (bit_vector);
    assert(0u16 & 0x1fu16 == 0u16) by (bit_vector);
}

/// The packed time keeps seconds in steps of two: whatever the hour and the
/// minute, a second below 64 comes back rounded down to the even second.
pub proof fn lemma_seconds_round_down_to_even(hour: u16, minute: u16, second: u16)
    requires
        second < 64,
    ensures
        dos_second(dos_time(hour, minute, second)) == second - second % 2,
        dos_second(dos_time(hour, minute, second)) % 2 == 0,
{
    assert(((second / 2) | (minute << 5u16) | (hour << 11u16)) & 0x1fu16 == second / 2)
        by (bit_vector)
        requires
            second < 64,
    ;
}

/// A date and time within the reach of the format packs without loss, but for
/// the odd second: for a year from 1980 to 2107, a month and a day that fit
/// their bits, and a time of day on the clock, the packed fields name the same
/// year, month, day, hour and minute.
pub proof fn lemma_packed_fields_round_trip(
    year: u16,
    month: u16,
    day: u16,
    hour: u16,
    minute: u16,
    second: u16,
)
    requires
        1980 <= year <= 2107,
        month <= 15,
        day <= 31,
        hour <= 23,
        minute <= 59,
        second <= 59,
    ensures
        dos_year(dos_date(year, month, day)) == year,
        dos_month(dos_date(year, month, day)) == month,
        dos_day(dos_date(year, month, day)) == day,
        dos_hour(dos_time(hour, minute, second)) == hour,
        dos_minute(dos_time(hour, minute, second)) == minute,
        dos_second(dos_time(hour, minute, second)) == second - second % 2,
{
    let since: u16 = (year - 1980) as u16;
    assert((day | (month << 5u16) | (since << 9u16)) >> 9u16 == since) by (bit_vector)
        requires
            since <= 127,
            month <= 15,
            day <= 31,
    ;
    assert(((day | (month << 5u16) | (since << 9u16)) >> 5u16) & 0xfu16 == month) by (bit_vector)
        requires
            since <= 127,
            month <= 15,
            day <= 31,
    ;
    assert((day | (month << 5u16) | (since << 9u16)) & 0x1fu16 == day) by (bit_vector)
        requires
            since <= 127,
            month <= 15,
            day <= 31,
    ;
    assert(((second / 2) | (minute << 5u16) | (hour << 11u16)) >> 11u16 == hour) by (bit_vector)
        requires
            hour <= 23,
            minute <= 59,
            second <= 59,
    ;
    assert((((second / 2) | (minute << 5u16) | (hour << 11u16)) >> 5u16) & 0x3fu16 == minute)
        by (bit_vector)
        requires
            hour <= 23,
            minute <= 59,
            second <= 59,
    ;
    lemma_seconds_round_down_to_even(hour, minute, second);
}

} // verus!
