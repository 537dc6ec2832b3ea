//! Conversions between the timestamps of this library and those of the `time` crate.

use vstd::prelude::*;
use ::time::error::ComponentRange;
use ::time::{Date, OffsetDateTime, PrimitiveDateTime, Time, UtcOffset};
use crate::result::{ComponentBounds, DateTimeRangeError};
use crate::types::{date_time_in_bounds, first_range_error, DateTime};

verus! {

/// `time::OffsetDateTime`, a date and time with an offset from UTC.
#[verifier::external_type_specification]
#[verifier::external_body]
pub struct ExOffsetDateTime(OffsetDateTime);

/// `time::UtcOffset`, an offset from UTC.
#[verifier::external_type_specification]
#[verifier::external_body]
pub struct ExUtcOffset(UtcOffset);

/// `time::Date`, a day of the calendar.
#[verifier::external_type_specification]
#[verifier::external_body]
pub struct ExDate(Date);

/// `time::Time`, a time of day.
#[verifier::external_type_specification]
#[verifier::external_body]
pub struct ExTime(Time);

/// `time::error::ComponentRange`, the error of a component that is out of range.
#[verifier::external_type_specification]
#[verifier::external_body]
pub struct ExComponentRange(ComponentRange);

/// The calendar year of a timestamp, from `OffsetDateTime::year`.
#[verifier::external_body]
fn year_of(dt: &OffsetDateTime) -> i32 {
    dt.year()
}

/// The number of the month of a timestamp, from `OffsetDateTime::month`, which gives
/// one of the twelve values of `time::Month`; their numbers are 1 to 12.
#[verifier::external_body]
fn month_of(dt: &OffsetDateTime) -> (r: u8)
    ensures
        1 <= r <= 12,
{
    u8::from(dt.month())
}

/// The day of the month of a timestamp, from `OffsetDateTime::day`, which gives a
/// value from 1 to 31.
#[verifier::external_body]
fn day_of(dt: &OffsetDateTime) -> (r: u8)
    ensures
        1 <= r <= 31,
{
    dt.day()
}

/// The clock hour of a timestamp, from `OffsetDateTime::hour`, which gives a value
/// below 24.
#[verifier::external_body]
fn hour_of(dt: &OffsetDateTime) -> (r: u8)
    ensures
        r < 24,
{
    dt.hour()
}

/// The minute within the hour of a timestamp, from `OffsetDateTime::minute`, which
/// gives a value below 60.
#[verifier::external_body]
fn minute_of(dt: &OffsetDateTime) -> (r: u8)
    ensures
        r < 60,
{
    dt.minute()
}

/// The second within the minute of a timestamp, from `OffsetDateTime::second`, which
/// gives a value below 60.
#[verifier::external_body]
fn second_of(dt: &OffsetDateTime) -> (r: u8)
    ensures
        r < 60,
{
    dt.second()
}

/// True for a leap year of the Gregorian calendar.
pub open spec fn is_leap_year(year: int) -> bool {
    year % 4 == 0 && (year % 100 != 0 || year % 400 == 0)
}

/// The number of days of a month.
pub open spec fn days_in_month(year: int, month: int) -> int {
    if month == 2 {
        if is_leap_year(year) {
            29
        } else {
            28
        }
    } else if month == 4 || month == 6 || month == 9 || month == 11 {
        30
    } else {
        31
    }
}

/// True when month and day name a day of the given year.
pub open spec fn valid_month_day(year: int, month: int, day: int) -> bool {
    1 <= month <= 12 && 1 <= day <= days_in_month(year, month)
}

/// True when hour, minute and second name a time of day, without a leap second.
pub open spec fn valid_clock(hour: int, minute: int, second: int) -> bool {
    hour < 24 && minute < 60 && second < 60
}

/// Makes a date with `Month::try_from` and `Date::from_calendar_date`, which accept
/// the months 1 to 12 and, of a year from -9999 to 9999, the days that the month has
/// in that year.
#[verifier::external_body]
fn calendar_date(year: i32, month: u8, day: u8) -> (r: Result<Date, ComponentRange>)
    ensures
        -9999 <= year <= 9999 ==> (r is Ok <==> valid_month_day(
            year as int,
            month as int,
            day as int,
        )),
{
    Date::from_calendar_date(year, ::time::Month::try_from(month)?, day)
}

/// Makes a time of day with `Time::from_hms`, which accepts hours below 24 and
/// minutes and seconds below 60.
#[verifier::external_body]
fn clock_time(hour: u8, minute: u8, second: u8) -> (r: Result<Time, ComponentRange>)
    ensures
        r is Ok <==> valid_clock(hour as int, minute as int, second as int),
{
    Time::from_hms(hour, minute, second)
}

/// Puts date, time and offset together with `PrimitiveDateTime::new` and
/// `PrimitiveDateTime::assume_offset`.
#[verifier::external_body]
fn at_offset(date: Date, time: Time, offset: UtcOffset) -> OffsetDateTime {
    PrimitiveDateTime::new(date, time).assume_offset(offset)
}

/// The offset of UTC, `UtcOffset::UTC`.
#[verifier::external_body]
fn utc() -> UtcOffset {
    UtcOffset::UTC
}

/// What the six components of a foreign timestamp give: the value that holds them,
/// or the error of the first one that is out of bounds. A year that does not fit in
/// 16 bits is reported as such.
pub open spec fn from_components(
    year: i32,
    month: u8,
    day: u8,
    hour: u8,
    minute: u8,
    second: u8,
) -> Result<(), DateTimeRangeError> {
    if year < 0 || year > 0xFFFF {
        Err(DateTimeRangeError::NumericConversion(year))
    } else if date_time_in_bounds(year as u16, month, day, hour, minute, second) {
        Ok(())
    } else {
        Err(first_range_error(year as u16, month, day, hour, minute, second))
    }
}

/// True when `r` is what the six components of a foreign timestamp give: the value
/// that holds them, or the error of the first one that is out of bounds.
pub open spec fn made_of(
    r: Result<DateTime, DateTimeRangeError>,
    year: i32,
    month: u8,
    day: u8,
    hour: u8,
    minute: u8,
    second: u8,
) -> bool {
    match r {
        Ok(dt) => from_components(year, month, day, hour, minute, second) is Ok
            && dt.spec_year() == year && dt.spec_month() == month && dt.spec_day() == day
            && dt.spec_hour() == hour && dt.spec_minute() == minute && dt.spec_second()
            == second,
        Err(e) => from_components(year, month, day, hour, minute, second) == Err::<
            (),
            DateTimeRangeError,
        >(e),
    }
}

/// True when `r` is what the six components of a foreign timestamp give, without the
/// error that says which of them is out of bounds.
pub open spec fn plainly_made_of(
    r: Result<DateTime, ()>,
    year: i32,
    month: u8,
    day: u8,
    hour: u8,
    minute: u8,
    second: u8,
) -> bool {
    match r {
        Ok(dt) => made_of(Ok(dt), year, month, day, hour, minute, second),
        Err(_) => from_components(year, month, day, hour, minute, second) is Err,
    }
}

/// True for the month, day, hour, minute and second that a timestamp of the `time`
/// crate can have.
pub open spec fn clock_components(month: u8, day: u8, hour: u8, minute: u8, second: u8) -> bool {
    1 <= month <= 12 && 1 <= day <= 31 && hour < 24 && minute < 60 && second < 60
}

impl DateTime {
    /// Makes a DateTime of the six components of a foreign timestamp.
    pub fn try_from_components(year: i32, month: u8, day: u8, hour: u8, minute: u8, second: u8)
        -> (r: Result<DateTime, DateTimeRangeError>)
        ensures
            made_of(r, year, month, day, hour, minute, second),
    {
        if year < 0 || year > 0xFFFF {
            return Err(DateTimeRangeError::NumericConversion(year));
        }
        DateTime::parse_from_date_and_time(year as u16, month, day, hour, minute, second)
    }

    /// Converts a OffsetDateTime object to a DateTime, with the error that says which
    /// component is out of bounds.
    ///
    /// The result is what the six components of the timestamp give. Of these only the
    /// year can be out of bounds: the timestamp is accepted exactly when its year is
    /// one from 1980 to 2107, and a value that is returned has no leap second.
    pub fn try_from_time(dt: OffsetDateTime) -> (r: Result<DateTime, DateTimeRangeError>)
        ensures
            exists|year: i32, month: u8, day: u8, hour: u8, minute: u8, second: u8|
                clock_components(month, day, hour, minute, second) && #[trigger] made_of(
                    r,
                    year,
                    month,
                    day,
                    hour,
                    minute,
                    second,
                ),
            r is Ok ==> date_time_in_bounds(
                r->Ok_0.spec_year(),
                r->Ok_0.spec_month(),
                r->Ok_0.spec_day(),
                r->Ok_0.spec_hour(),
                r->Ok_0.spec_minute(),
                r->Ok_0.spec_second(),
            ) && r->Ok_0.spec_second() < 60,
            r is Err ==> (match r->Err_0 {
                DateTimeRangeError::NumericConversion(year) => year < 0 || year > 0xFFFF,
                DateTimeRangeError::InvalidYear(year, bounds) => !(1980 <= year <= 2107)
                    && bounds == (ComponentBounds { min: 1980, max: 2107 }),
                _ => false,
            }),
    {
        let year = year_of(&dt);
        let month = month_of(&dt);
        let day = day_of(&dt);
        let hour = hour_of(&dt);
        let minute = minute_of(&dt);
        let second = second_of(&dt);
        let r = DateTime::try_from_components(year, month, day, hour, minute, second);
        assert(clock_components(month, day, hour, minute, second) && made_of(
            r,
            year,
            month,
            day,
            hour,
            minute,
            second,
        ));
        r
    }

    /// Converts a OffsetDateTime object to a DateTime
    ///
    /// Returns `Err` when this object is out of bounds: the result is what the six
    /// components of the timestamp give, of which only the year can be out of bounds.
    pub fn from_time(dt: OffsetDateTime) -> (r: Result<DateTime, ()>)
        ensures
            exists|year: i32, month: u8, day: u8, hour: u8, minute: u8, second: u8|
                clock_components(month, day, hour, minute, second) && #[trigger] plainly_made_of(
                    r,
                    year,
                    month,
                    day,
                    hour,
                    minute,
                    second,
                ),
            r is Ok ==> date_time_in_bounds(
                r->Ok_0.spec_year(),
                r->Ok_0.spec_month(),
                r->Ok_0.spec_day(),
                r->Ok_0.spec_hour(),
                r->Ok_0.spec_minute(),
                r->Ok_0.spec_second(),
            ) && r->Ok_0.spec_second() < 60,
    {
        let made = DateTime::try_from_time(dt);
        let r = match made {
            Ok(dt) => Ok(dt),
            Err(_) => Err(()),
        };
        proof {
            let (year, month, day, hour, minute, second) = choose|
                year: i32,
                month: u8,
                day: u8,
                hour: u8,
                minute: u8,
                second: u8,
            |
                clock_components(month, day, hour, minute, second) && #[trigger] made_of(
                    made,
                    year,
                    month,
                    day,
                    hour,
                    minute,
                    second,
                );
            assert(plainly_made_of(r, year, month, day, hour, minute, second));
        }
        r
    }

    /// True when the value names a day of the calendar and a time of day without a
    /// leap second.
    pub open spec fn is_calendar_time(&self) -> bool {
        valid_month_day(self.spec_year() as int, self.spec_month() as int, self.spec_day() as int)
            && valid_clock(
            self.spec_hour() as int,
            self.spec_minute() as int,
            self.spec_second() as int,
        )
    }

    /// Converts the DateTime to a OffsetDateTime structure at UTC.
    pub fn to_time(&self) -> (r: Result<OffsetDateTime, ComponentRange>)
        ensures
            r is Ok <==> self.is_calendar_time(),
    {
        self.to_time_with_offset(utc())
    }

    /// Converts the DateTime to a OffsetDateTime structure, given a UTC offset.
    ///
    /// A value that names no day of the calendar or no time of day is refused. So is
    /// second 60: the `time` crate has no leap seconds.
    pub fn to_time_with_offset(&self, offset: UtcOffset) -> (r: Result<
        OffsetDateTime,
        ComponentRange,
    >)
        ensures
            r is Ok <==> self.is_calendar_time(),
    {
        let date = match calendar_date(self.year() as i32, self.month(), self.day()) {
            Err(e) => {
                return Err(e);
            },
            Ok(date) => date,
        };
        let time = match clock_time(self.hour(), self.minute(), self.second()) {
            Err(e) => {
                return Err(e);
            },
            Ok(time) => time,
        };
        Ok(at_offset(date, time, offset))
    }
}

} // verus!
