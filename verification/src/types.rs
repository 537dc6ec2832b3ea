//! Types that specify what is contained in a ZIP.

use vstd::prelude::*;
use crate::compression::CompressionMethod;
use crate::result::{ComponentBounds, DateTimeRangeError};

verus! {

/// The system that produced an entry's attribute information.
#[derive(Clone, Copy, Debug, PartialEq, Eq, Structural)]
pub enum System {
    Dos,
    Unix,
    Unknown,
}

/// The system that a code of the file format stands for.
pub open spec fn system_of_code(code: u8) -> System {
    if code == 0 {
        System::Dos
    } else if code == 3 {
        System::Unix
    } else {
        System::Unknown
    }
}

/// The code that stands for a system; 4 for an unknown one.
pub open spec fn code_of_system(system: System) -> u8 {
    match system {
        System::Dos => 0,
        System::Unix => 3,
        System::Unknown => 4,
    }
}

impl System {
    /// The system that a code of the file format stands for.
    pub fn from_u8(code: u8) -> (r: System)
        ensures
            r == system_of_code(code),
    {
        match code {
            0 => System::Dos,
            3 => System::Unix,
            _ => System::Unknown,
        }
    }

    /// The code that stands for this system.
    pub fn to_u8(self) -> (r: u8)
        ensures
            r == code_of_system(self),
    {
        match self {
            System::Dos => 0,
            System::Unix => 3,
            System::Unknown => 4,
        }
    }
}

impl From<u8> for System {
    fn from(code: u8) -> (r: System) {
        System::from_u8(code)
    }
}

impl vstd::std_specs::convert::FromSpecImpl<u8> for System {
    open spec fn obeys_from_spec() -> bool {
        true
    }

    open spec fn from_spec(code: u8) -> System {
        system_of_code(code)
    }
}

impl From<System> for u8 {
    fn from(system: System) -> (r: u8) {
        system.to_u8()
    }
}

impl vstd::std_specs::convert::FromSpecImpl<System> for u8 {
    open spec fn obeys_from_spec() -> bool {
        true
    }

    open spec fn from_spec(system: System) -> u8 {
        code_of_system(system)
    }
}

/// The codes of the two known systems survive the conversion to a system and back.
pub proof fn lemma_system_round_trip(system: System)
    requires
        system != System::Unknown,
    ensures
        system_of_code(code_of_system(system)) == system,
{
}

pub const YEAR_MIN: u16 = 1980;

pub const YEAR_MAX: u16 = 2107;

pub const MONTH_MIN: u8 = 1;

pub const MONTH_MAX: u8 = 12;

pub const DAY_MIN: u8 = 1;

pub const DAY_MAX: u8 = 31;

pub const HOUR_MAX: u8 = 23;

pub const MINUTE_MAX: u8 = 59;

pub const SECOND_MAX: u8 = 60;

/// Representation of a moment in time.
///
/// Zip files use an old format from DOS to store timestamps, with a resolution of two
/// seconds. A value made by the validated constructor lies in the documented bounds; one
/// made from a packed MS-DOS pair holds the raw bit fields, which may lie outside them.
#[derive(Debug, Clone, Copy)]
pub struct DateTime {
    year: u16,
    month: u8,
    day: u8,
    hour: u8,
    minute: u8,
    second: u8,
}

/// The date of a packed MS-DOS pair as the components that its bit fields hold.
pub open spec fn msdos_year(datepart: u16) -> int {
    1980 + datepart as int / 512
}

pub open spec fn msdos_month(datepart: u16) -> int {
    (datepart as int / 32) % 16
}

pub open spec fn msdos_day(datepart: u16) -> int {
    datepart as int % 32
}

pub open spec fn msdos_hour(timepart: u16) -> int {
    timepart as int / 2048
}

pub open spec fn msdos_minute(timepart: u16) -> int {
    (timepart as int / 32) % 64
}

pub open spec fn msdos_second(timepart: u16) -> int {
    2 * (timepart as int % 32)
}

/// True when all six components lie in the bounds of the validated constructor.
pub open spec fn date_time_in_bounds(
    year: u16,
    month: u8,
    day: u8,
    hour: u8,
    minute: u8,
    second: u8,
) -> bool {
    &&& 1980 <= year <= 2107
    &&& 1 <= month <= 12
    &&& 1 <= day <= 31
    &&& hour <= 23
    &&& minute <= 59
    &&& second <= 60
}

/// The error that the validated constructor reports: that of the first component, in the
/// order year, month, day, hour, minute, second, that lies outside its bounds.
pub open spec fn first_range_error(
    year: u16,
    month: u8,
    day: u8,
    hour: u8,
    minute: u8,
    second: u8,
) -> DateTimeRangeError {
    if !(1980 <= year <= 2107) {
        DateTimeRangeError::InvalidYear(year, ComponentBounds { min: 1980, max: 2107 })
    } else if !(1 <= month <= 12) {
        DateTimeRangeError::InvalidMonth(month, ComponentBounds { min: 1, max: 12 })
    } else if !(1 <= day <= 31) {
        DateTimeRangeError::InvalidDay(day, ComponentBounds { min: 1, max: 31 })
    } else if !(hour <= 23) {
        DateTimeRangeError::InvalidHour(hour, ComponentBounds { min: 0, max: 23 })
    } else if !(minute <= 59) {
        DateTimeRangeError::InvalidMinute(minute, ComponentBounds { min: 0, max: 59 })
    } else {
        DateTimeRangeError::InvalidSecond(second, ComponentBounds { min: 0, max: 60 })
    }
}

impl DateTime {
    /// What every value of this type satisfies: the widest bounds that the bit fields of a
    /// packed MS-DOS pair can express.
    #[verifier::type_invariant]
    spec fn packed_bounds(self) -> bool {
        &&& 1980 <= self.year <= 2107
        &&& self.month <= 15
        &&& self.day <= 31
        &&& self.hour <= 31
        &&& self.minute <= 63
        &&& self.second <= 62
    }

    pub closed spec fn spec_year(&self) -> u16 {
        self.year
    }

    pub closed spec fn spec_month(&self) -> u8 {
        self.month
    }

    pub closed spec fn spec_day(&self) -> u8 {
        self.day
    }

    pub closed spec fn spec_hour(&self) -> u8 {
        self.hour
    }

    pub closed spec fn spec_minute(&self) -> u8 {
        self.minute
    }

    pub closed spec fn spec_second(&self) -> u8 {
        self.second
    }

    /// The time of this value in the packed MS-DOS representation.
    pub open spec fn spec_timepart(&self) -> int {
        self.spec_second() as int / 2 + 32 * self.spec_minute() as int + 2048
            * self.spec_hour() as int
    }

    /// The date of this value in the packed MS-DOS representation.
    pub open spec fn spec_datepart(&self) -> int {
        self.spec_day() as int + 32 * self.spec_month() as int + 512 * (self.spec_year() as int
            - 1980)
    }

    /// True when two values hold the same six components.
    pub open spec fn same_as(&self, other: DateTime) -> bool {
        &&& self.spec_year() == other.spec_year()
        &&& self.spec_month() == other.spec_month()
        &&& self.spec_day() == other.spec_day()
        &&& self.spec_hour() == other.spec_hour()
        &&& self.spec_minute() == other.spec_minute()
        &&& self.spec_second() == other.spec_second()
    }

    /// The value that a packed MS-DOS pair unpacks to.
    pub closed spec fn spec_from_msdos(datepart: u16, timepart: u16) -> DateTime {
        DateTime {
            year: msdos_year(datepart) as u16,
            month: msdos_month(datepart) as u8,
            day: msdos_day(datepart) as u8,
            hour: msdos_hour(timepart) as u8,
            minute: msdos_minute(timepart) as u8,
            second: msdos_second(timepart) as u8,
        }
    }

    /// Constructs a 'default' datetime of 1980-01-01 00:00:00
    pub fn zero() -> (dt: DateTime)
        ensures
            dt.spec_year() == 1980,
            dt.spec_month() == 1,
            dt.spec_day() == 1,
            dt.spec_hour() == 0,
            dt.spec_minute() == 0,
            dt.spec_second() == 0,
    {
        DateTime { year: 1980, month: 1, day: 1, hour: 0, minute: 0, second: 0 }
    }

    /// Accepts the years 1980 to 2107.
    pub fn check_year(year: u16) -> (r: Result<(), DateTimeRangeError>)
        ensures
            r is Ok <==> 1980 <= year <= 2107,
            r is Err ==> r->Err_0 == DateTimeRangeError::InvalidYear(
                year,
                ComponentBounds { min: 1980, max: 2107 },
            ),
    {
        if YEAR_MIN <= year && year <= YEAR_MAX {
            Ok(())
        } else {
            Err(
                DateTimeRangeError::InvalidYear(
                    year,
                    ComponentBounds { min: YEAR_MIN, max: YEAR_MAX },
                ),
            )
        }
    }

    /// Accepts the months 1 to 12.
    pub fn check_month(month: u8) -> (r: Result<(), DateTimeRangeError>)
        ensures
            r is Ok <==> 1 <= month <= 12,
            r is Err ==> r->Err_0 == DateTimeRangeError::InvalidMonth(
                month,
                ComponentBounds { min: 1, max: 12 },
            ),
    {
        if MONTH_MIN <= month && month <= MONTH_MAX {
            Ok(())
        } else {
            Err(DateTimeRangeError::InvalidMonth(month, ComponentBounds { min: 1, max: 12 }))
        }
    }

    /// Accepts the days 1 to 31.
    pub fn check_day(day: u8) -> (r: Result<(), DateTimeRangeError>)
        ensures
            r is Ok <==> 1 <= day <= 31,
            r is Err ==> r->Err_0 == DateTimeRangeError::InvalidDay(
                day,
                ComponentBounds { min: 1, max: 31 },
            ),
    {
        if DAY_MIN <= day && day <= DAY_MAX {
            Ok(())
        } else {
            Err(DateTimeRangeError::InvalidDay(day, ComponentBounds { min: 1, max: 31 }))
        }
    }

    /// Accepts the hours 0 to 23.
    pub fn check_hour(hour: u8) -> (r: Result<(), DateTimeRangeError>)
        ensures
            r is Ok <==> hour <= 23,
            r is Err ==> r->Err_0 == DateTimeRangeError::InvalidHour(
                hour,
                ComponentBounds { min: 0, max: 23 },
            ),
    {
        if hour <= HOUR_MAX {
            Ok(())
        } else {
            Err(DateTimeRangeError::InvalidHour(hour, ComponentBounds { min: 0, max: 23 }))
        }
    }

    /// Accepts the minutes 0 to 59.
    pub fn check_minute(minute: u8) -> (r: Result<(), DateTimeRangeError>)
        ensures
            r is Ok <==> minute <= 59,
            r is Err ==> r->Err_0 == DateTimeRangeError::InvalidMinute(
                minute,
                ComponentBounds { min: 0, max: 59 },
            ),
    {
        if minute <= MINUTE_MAX {
            Ok(())
        } else {
            Err(DateTimeRangeError::InvalidMinute(minute, ComponentBounds { min: 0, max: 59 }))
        }
    }

    /// Accepts the seconds 0 to 60, the last one for a leap second.
    pub fn check_second(second: u8) -> (r: Result<(), DateTimeRangeError>)
        ensures
            r is Ok <==> second <= 60,
            r is Err ==> r->Err_0 == DateTimeRangeError::InvalidSecond(
                second,
                ComponentBounds { min: 0, max: 60 },
            ),
    {
        if second <= SECOND_MAX {
            Ok(())
        } else {
            Err(DateTimeRangeError::InvalidSecond(second, ComponentBounds { min: 0, max: 60 }))
        }
    }

    /// Converts an msdos (u16, u16) pair to a DateTime object.
    ///
    /// The six bit fields are taken as they are: no component is checked, and packing the
    /// result again gives the pair back.
    pub fn from_msdos(datepart: u16, timepart: u16) -> (dt: DateTime)
        ensures
            dt == DateTime::spec_from_msdos(datepart, timepart),
            dt.spec_year() == msdos_year(datepart),
            dt.spec_month() == msdos_month(datepart),
            dt.spec_day() == msdos_day(datepart),
            dt.spec_hour() == msdos_hour(timepart),
            dt.spec_minute() == msdos_minute(timepart),
            dt.spec_second() == msdos_second(timepart),
            dt.spec_datepart() == datepart,
            dt.spec_timepart() == timepart,
    {
        let seconds: u16 = (timepart & 0b0000000000011111) << 1;
        let minutes: u16 = (timepart & 0b0000011111100000) >> 5;
        let hours: u16 = (timepart & 0b1111100000000000) >> 11;
        let days: u16 = datepart & 0b0000000000011111;
        let months: u16 = (datepart & 0b0000000111100000) >> 5;
        let years: u16 = (datepart & 0b1111111000000000) >> 9;
        assert(seconds == 2 * (timepart % 32) && minutes == (timepart / 32) % 64 && hours
            == timepart / 2048) by (bit_vector)
            requires
                seconds == (timepart & 0b0000000000011111) << 1,
                minutes == (timepart & 0b0000011111100000) >> 5,
                hours == (timepart & 0b1111100000000000) >> 11,
        ;
        assert(days == datepart % 32 && months == (datepart / 32) % 16 && years == datepart / 512)
            by (bit_vector)
            requires
                days == datepart & 0b0000000000011111,
                months == (datepart & 0b0000000111100000) >> 5,
                years == (datepart & 0b1111111000000000) >> 9,
        ;
        DateTime {
            year: years + 1980,
            month: months as u8,
            day: days as u8,
            hour: hours as u8,
            minute: minutes as u8,
            second: seconds as u8,
        }
    }

    /// Constructs a DateTime from a specific date and time, without saying which component
    /// was refused.
    pub fn from_date_and_time(
        year: u16,
        month: u8,
        day: u8,
        hour: u8,
        minute: u8,
        second: u8,
    ) -> (r: Result<DateTime, ()>)
        ensures
            r is Ok <==> date_time_in_bounds(year, month, day, hour, minute, second),
            r is Ok ==> {
                let dt = r->Ok_0;
                &&& dt.spec_year() == year
                &&& dt.spec_month() == month
                &&& dt.spec_day() == day
                &&& dt.spec_hour() == hour
                &&& dt.spec_minute() == minute
                &&& dt.spec_second() == second
            },
    {
        match DateTime::parse_from_date_and_time(year, month, day, hour, minute, second) {
            Ok(dt) => Ok(dt),
            Err(_) => Err(()),
        }
    }

    /// Constructs a DateTime from a specific date and time
    ///
    /// The bounds are:
    /// * year: [1980, 2107]
    /// * month: [1, 12]
    /// * day: [1, 31]
    /// * hour: [0, 23]
    /// * minute: [0, 59]
    /// * second: [0, 60]
    pub fn parse_from_date_and_time(
        year: u16,
        month: u8,
        day: u8,
        hour: u8,
        minute: u8,
        second: u8,
    ) -> (r: Result<DateTime, DateTimeRangeError>)
        ensures
            r is Ok <==> date_time_in_bounds(year, month, day, hour, minute, second),
            r is Ok ==> {
                let dt = r->Ok_0;
                &&& dt.spec_year() == year
                &&& dt.spec_month() == month
                &&& dt.spec_day() == day
                &&& dt.spec_hour() == hour
                &&& dt.spec_minute() == minute
                &&& dt.spec_second() == second
            },
            r is Err ==> r->Err_0 == first_range_error(year, month, day, hour, minute, second),
    {
        match DateTime::check_year(year) {
            Err(e) => return Err(e),
            Ok(_) => {},
        }
        match DateTime::check_month(month) {
            Err(e) => return Err(e),
            Ok(_) => {},
        }
        match DateTime::check_day(day) {
            Err(e) => return Err(e),
            Ok(_) => {},
        }
        match DateTime::check_hour(hour) {
            Err(e) => return Err(e),
            Ok(_) => {},
        }
        match DateTime::check_minute(minute) {
            Err(e) => return Err(e),
            Ok(_) => {},
        }
        match DateTime::check_second(second) {
            Err(e) => return Err(e),
            Ok(_) => {},
        }
        Ok(DateTime { year, month, day, hour, minute, second })
    }

    /// Gets the time portion of this datetime in the msdos representation
    pub fn timepart(&self) -> (r: u16)
        ensures
            r == self.spec_timepart(),
    {
        proof {
            use_type_invariant(self);
        }
        let s: u16 = self.second as u16;
        let m: u16 = self.minute as u16;
        let h: u16 = self.hour as u16;
        assert((s >> 1) | (m << 5) | (h << 11) == s / 2 + 32 * m + 2048 * h) by (bit_vector)
            requires
                s <= 62,
                m <= 63,
                h <= 31,
        ;
        (s >> 1) | (m << 5) | (h << 11)
    }

    /// Gets the date portion of this datetime in the msdos representation
    pub fn datepart(&self) -> (r: u16)
        ensures
            r == self.spec_datepart(),
    {
        proof {
            use_type_invariant(self);
        }
        let d: u16 = self.day as u16;
        let m: u16 = self.month as u16;
        let y: u16 = self.year - 1980;
        assert(d | (m << 5) | (y << 9) == d + 32 * m + 512 * y) by (bit_vector)
            requires
                d <= 31,
                m <= 15,
                y <= 127,
        ;
        d | (m << 5) | (y << 9)
    }

    /// Get the year. There is no epoch, i.e. 2018 will be returned as 2018.
    #[verifier::when_used_as_spec(spec_year)]
    pub fn year(&self) -> (r: u16)
        ensures
            r == self.spec_year(),
            1980 <= r <= 2107,
    {
        proof {
            use_type_invariant(self);
        }
        self.year
    }

    /// Get the month, where 1 = january and 12 = december
    ///
    /// When read from a zip file, this may not be a reasonable value
    #[verifier::when_used_as_spec(spec_month)]
    pub fn month(&self) -> (r: u8)
        ensures
            r == self.spec_month(),
            r <= 15,
    {
        proof {
            use_type_invariant(self);
        }
        self.month
    }

    /// Get the day
    ///
    /// When read from a zip file, this may not be a reasonable value
    #[verifier::when_used_as_spec(spec_day)]
    pub fn day(&self) -> (r: u8)
        ensures
            r == self.spec_day(),
            r <= 31,
    {
        proof {
            use_type_invariant(self);
        }
        self.day
    }

    /// Get the hour
    ///
    /// When read from a zip file, this may not be a reasonable value
    #[verifier::when_used_as_spec(spec_hour)]
    pub fn hour(&self) -> (r: u8)
        ensures
            r == self.spec_hour(),
            r <= 31,
    {
        proof {
            use_type_invariant(self);
        }
        self.hour
    }

    /// Get the minute
    ///
    /// When read from a zip file, this may not be a reasonable value
    #[verifier::when_used_as_spec(spec_minute)]
    pub fn minute(&self) -> (r: u8)
        ensures
            r == self.spec_minute(),
            r <= 63,
    {
        proof {
            use_type_invariant(self);
        }
        self.minute
    }

    /// Get the second
    ///
    /// When read from a zip file, this may not be a reasonable value
    #[verifier::when_used_as_spec(spec_second)]
    pub fn second(&self) -> (r: u8)
        ensures
            r == self.spec_second(),
            r <= 62,
    {
        proof {
            use_type_invariant(self);
        }
        self.second
    }
}

impl Default for DateTime {
    fn default() -> (dt: DateTime)
        ensures
            dt.spec_year() == 1980,
            dt.spec_month() == 1,
            dt.spec_day() == 1,
            dt.spec_hour() == 0,
            dt.spec_minute() == 0,
            dt.spec_second() == 0,
    {
        DateTime::zero()
    }
}

/// Unpacking a packed MS-DOS pair and packing the result again gives the pair back, for
/// every one of the 2^32 pairs.
pub proof fn lemma_msdos_round_trip(datepart: u16, timepart: u16)
    ensures
        msdos_day(datepart) + 32 * msdos_month(datepart) + 512 * (msdos_year(datepart) - 1980)
            == datepart,
        msdos_second(timepart) / 2 + 32 * msdos_minute(timepart) + 2048 * msdos_hour(timepart)
            == timepart,
{
}

proof fn lemma_unpack_date(d: u16, m: u16, y: u16)
    by (bit_vector)
    requires
        d <= 31,
        m <= 15,
        y <= 127,
    ensures
        d + 32 * m + 512 * y <= 0xffff,
        ((d + 32 * m + 512 * y) as u16) % 32 == d,
        (((d + 32 * m + 512 * y) as u16) / 32) % 16 == m,
        ((d + 32 * m + 512 * y) as u16) / 512 == y,
{
}

proof fn lemma_unpack_time(s: u16, m: u16, h: u16)
    by (bit_vector)
    requires
        s <= 62,
        m <= 63,
        h <= 31,
    ensures
        s / 2 + 32 * m + 2048 * h <= 0xffff,
        2 * (((s / 2 + 32 * m + 2048 * h) as u16) % 32) == s - s % 2,
        (((s / 2 + 32 * m + 2048 * h) as u16) / 32) % 64 == m,
        ((s / 2 + 32 * m + 2048 * h) as u16) / 2048 == h,
{
}

/// Packing a validated date and time and unpacking the pair gives the same value, except
/// that an odd second is rounded down to the even one below it.
pub proof fn lemma_pack_unpack(dt: DateTime)
    requires
        date_time_in_bounds(
            dt.spec_year(),
            dt.spec_month(),
            dt.spec_day(),
            dt.spec_hour(),
            dt.spec_minute(),
            dt.spec_second(),
        ),
    ensures
        0 <= dt.spec_datepart() <= u16::MAX,
        0 <= dt.spec_timepart() <= u16::MAX,
        msdos_year(dt.spec_datepart() as u16) == dt.spec_year(),
        msdos_month(dt.spec_datepart() as u16) == dt.spec_month(),
        msdos_day(dt.spec_datepart() as u16) == dt.spec_day(),
        msdos_hour(dt.spec_timepart() as u16) == dt.spec_hour(),
        msdos_minute(dt.spec_timepart() as u16) == dt.spec_minute(),
        msdos_second(dt.spec_timepart() as u16) == dt.spec_second() - dt.spec_second() % 2,
{
    let y: u16 = (dt.spec_year() - 1980) as u16;
    lemma_unpack_date(dt.spec_day() as u16, dt.spec_month() as u16, y);
    lemma_unpack_time(dt.spec_second() as u16, dt.spec_minute() as u16, dt.spec_hour() as u16);
}

/// True for a value that a packed MS-DOS pair can hold as it is: each component fits
/// its bit field, and the second is even.
pub open spec fn is_packable(dt: DateTime) -> bool {
    &&& 1980 <= dt.spec_year() <= 2107
    &&& dt.spec_month() <= 15
    &&& dt.spec_day() <= 31
    &&& dt.spec_hour() <= 31
    &&& dt.spec_minute() <= 63
    &&& dt.spec_second() <= 62
    &&& dt.spec_second() % 2 == 0
}

/// Packing a value that a packed pair can hold and unpacking the pair gives the value
/// back.
pub proof fn lemma_unpack_of_pack(dt: DateTime)
    requires
        is_packable(dt),
    ensures
        0 <= dt.spec_datepart() <= u16::MAX,
        0 <= dt.spec_timepart() <= u16::MAX,
        DateTime::spec_from_msdos(dt.spec_datepart() as u16, dt.spec_timepart() as u16) == dt,
{
    let y: u16 = (dt.spec_year() - 1980) as u16;
    lemma_unpack_date(dt.spec_day() as u16, dt.spec_month() as u16, y);
    lemma_unpack_time(dt.spec_second() as u16, dt.spec_minute() as u16, dt.spec_hour() as u16);
}

pub const DEFAULT_VERSION: u8 = 46;

/// A type like `AtomicU64` except it implements `Clone` and has predefined
/// ordering.
///
/// It uses `Relaxed` ordering because it is not used for synchronisation. Another holder of
/// the same value may store into it at any time, so nothing is promised of what a load
/// returns.
#[derive(Debug)]
pub struct AtomicU64(std::sync::atomic::AtomicU64);

impl AtomicU64 {
    pub fn new(v: u64) -> Self {
        Self(std::sync::atomic::AtomicU64::new(v))
    }

    pub fn load(&self) -> u64 {
        self.0.load(std::sync::atomic::Ordering::Relaxed)
    }

    pub fn store(&self, val: u64) {
        self.0.store(val, std::sync::atomic::Ordering::Relaxed)
    }

    pub fn get_mut(&mut self) -> &mut u64 {
        self.0.get_mut()
    }
}

/// `AtomicU64::get_mut` lends the value that the atomic holds. What it holds is left
/// open: another holder may have stored into it.
pub assume_specification[ std::sync::atomic::AtomicU64::get_mut ](
    atomic: &mut std::sync::atomic::AtomicU64,
) -> &mut u64
;

impl Clone for AtomicU64 {
    fn clone(&self) -> Self {
        Self::new(self.load())
    }
}

/// The encryption specification used to encrypt a file with AES.
///
/// AE-2 does not make use of the CRC check.
#[derive(Copy, Clone, Debug, PartialEq, Eq, Structural)]
pub enum AesVendorVersion {
    Ae1,
    Ae2,
}

/// AES variant used.
#[derive(Copy, Clone, Debug, PartialEq, Eq, Structural)]
pub enum AesMode {
    Aes128,
    Aes192,
    Aes256,
}

impl AesMode {
    pub open spec fn spec_key_length(&self) -> usize {
        match self {
            AesMode::Aes128 => 16,
            AesMode::Aes192 => 24,
            AesMode::Aes256 => 32,
        }
    }

    /// The length in bytes of the salt that precedes the payload: half the key length.
    pub fn salt_length(&self) -> (r: usize)
        ensures
            r == self.spec_key_length() / 2,
    {
        self.key_length() / 2
    }

    /// The length in bytes of the encryption key.
    #[verifier::when_used_as_spec(spec_key_length)]
    pub fn key_length(&self) -> (r: usize)
        ensures
            r == self.spec_key_length(),
    {
        match self {
            AesMode::Aes128 => 16,
            AesMode::Aes192 => 24,
            AesMode::Aes256 => 32,
        }
    }
}

/// The file type bits of a Unix mode for a directory.
pub const S_IFDIR: u32 = 0o0040000;

/// The file type bits of a Unix mode for a regular file.
pub const S_IFREG: u32 = 0o0100000;

/// Structure representing a ZIP file.
#[derive(Debug, Clone)]
pub struct ZipFileData {
    /// Compatibility of the file attribute information
    pub system: System,
    /// Specification version
    pub version_made_by: u8,
    /// True if the file is encrypted.
    pub encrypted: bool,
    /// True if the file uses a data-descriptor section
    pub using_data_descriptor: bool,
    /// Compression method used to store the file
    pub compression_method: CompressionMethod,
    /// Compression level to store the file
    pub compression_level: Option<i32>,
    /// Last modified time. This will only have a 2 second precision.
    pub last_modified_time: DateTime,
    /// CRC32 checksum
    pub crc32: u32,
    /// Size of the file in the ZIP
    pub compressed_size: u64,
    /// Size of the file when extracted
    pub uncompressed_size: u64,
    /// Name of the file
    pub file_name: String,
    /// Raw file name. To be used when file_name was incorrectly decoded.
    pub file_name_raw: Vec<u8>,
    /// Extra field usually used for storage expansion
    pub extra_field: Vec<u8>,
    /// File comment
    pub file_comment: String,
    /// Specifies where the local header of the file starts
    pub header_start: u64,
    /// Specifies where the central header of the file starts
    ///
    /// Note that when this is not known, it is set to 0
    pub central_header_start: u64,
    /// Specifies where the compressed data of the file starts
    pub data_start: AtomicU64,
    /// External file attributes
    pub external_attributes: u32,
    /// Reserve local ZIP64 extra field
    pub large_file: bool,
    /// AES mode if applicable
    pub aes_mode: Option<(AesMode, AesVendorVersion)>,
}

/// What an entry's description says: every field but the slot for the start of the
/// data, which is filled in when the local header is first visited.
pub struct ZipFileDataView {
    pub system: System,
    pub version_made_by: u8,
    pub encrypted: bool,
    pub using_data_descriptor: bool,
    pub compression_method: CompressionMethod,
    pub compression_level: Option<i32>,
    pub last_modified_time: DateTime,
    pub crc32: u32,
    pub compressed_size: u64,
    pub uncompressed_size: u64,
    pub file_name: Seq<char>,
    pub file_name_raw: Seq<u8>,
    pub extra_field: Seq<u8>,
    pub file_comment: Seq<char>,
    pub header_start: u64,
    pub central_header_start: u64,
    pub external_attributes: u32,
    pub large_file: bool,
    pub aes_mode: Option<(AesMode, AesVendorVersion)>,
}

impl View for ZipFileData {
    type V = ZipFileDataView;

    open spec fn view(&self) -> ZipFileDataView {
        ZipFileDataView {
            system: self.system,
            version_made_by: self.version_made_by,
            encrypted: self.encrypted,
            using_data_descriptor: self.using_data_descriptor,
            compression_method: self.compression_method,
            compression_level: self.compression_level,
            last_modified_time: self.last_modified_time,
            crc32: self.crc32,
            compressed_size: self.compressed_size,
            uncompressed_size: self.uncompressed_size,
            file_name: self.file_name@,
            file_name_raw: self.file_name_raw@,
            extra_field: self.extra_field@,
            file_comment: self.file_comment@,
            header_start: self.header_start,
            central_header_start: self.central_header_start,
            external_attributes: self.external_attributes,
            large_file: self.large_file,
            aes_mode: self.aes_mode,
        }
    }
}

/// The Unix mode that an entry's attributes stand for, if any.
///
/// A Unix entry holds its mode in the upper 16 bits. An MS-DOS entry holds a
/// directory bit (16) and a read-only bit (1): a directory gets mode 775 and a file
/// mode 664, each with its file type; a read-only entry keeps only the read and execute
/// bits of that, which also drops the file type.
pub open spec fn unix_mode_of(system: System, external_attributes: u32) -> Option<u32> {
    if external_attributes == 0 {
        None
    } else {
        match system {
            System::Unix => Some((external_attributes as int / 65536) as u32),
            System::Dos => {
                let directory = (external_attributes as int / 16) % 2 == 1;
                let read_only = external_attributes as int % 2 == 1;
                Some(
                    if directory {
                        if read_only {
                            0o555u32
                        } else {
                            0o40775u32
                        }
                    } else {
                        if read_only {
                            0o444u32
                        } else {
                            0o100664u32
                        }
                    },
                )
            },
            System::Unknown => None,
        }
    }
}

/// True when one of the two sizes or the offset of the local header needs 64 bits.
pub open spec fn needs_zip64(v: ZipFileDataView) -> bool {
    v.uncompressed_size > 0xFFFFFFFF || v.compressed_size > 0xFFFFFFFF || v.header_start
        > 0xFFFFFFFF
}

/// The version of the format that a reader needs for an entry.
pub open spec fn version_needed_of(v: ZipFileDataView) -> u16 {
    if v.compression_method == CompressionMethod::Bzip2 {
        46
    } else if needs_zip64(v) {
        45
    } else {
        20
    }
}

impl ZipFileData {
    /// A copy of the description, with its own slot for the start of the data.
    pub fn duplicate(&self) -> (r: ZipFileData)
        ensures
            r@ == self@,
    {
        ZipFileData {
            system: self.system,
            version_made_by: self.version_made_by,
            encrypted: self.encrypted,
            using_data_descriptor: self.using_data_descriptor,
            compression_method: self.compression_method,
            compression_level: self.compression_level,
            last_modified_time: self.last_modified_time,
            crc32: self.crc32,
            compressed_size: self.compressed_size,
            uncompressed_size: self.uncompressed_size,
            file_name: self.file_name.clone(),
            file_name_raw: self.file_name_raw.clone(),
            extra_field: self.extra_field.clone(),
            file_comment: self.file_comment.clone(),
            header_start: self.header_start,
            central_header_start: self.central_header_start,
            data_start: self.data_start.clone(),
            external_attributes: self.external_attributes,
            large_file: self.large_file,
            aes_mode: self.aes_mode,
        }
    }

    /// The mangled form of the name: what stands before the first NUL, with either
    /// slash as separator, made relative, without `..` and `.` parts.
    pub fn file_name_sanitized(&self) -> (r: String)
        ensures
            r@ == crate::path::mangled(self@.file_name),
    {
        crate::path::mangle(self.file_name.as_str())
    }

    /// The name, if it is safe to put below an extraction root: it holds no NUL, is
    /// not absolute, and does not lead above where it starts.
    pub fn enclosed_name(&self) -> (r: Option<&str>)
        ensures
            r is Some <==> crate::path::is_enclosed(self@.file_name),
            r is Some ==> r->0@ == self@.file_name,
    {
        if crate::path::check_enclosed(self.file_name.as_str()) {
            Some(self.file_name.as_str())
        } else {
            None
        }
    }

    /// Get unix mode for the file
    pub fn unix_mode(&self) -> (r: Option<u32>)
        ensures
            r == unix_mode_of(self.system, self.external_attributes),
    {
        if self.external_attributes == 0 {
            return None;
        }
        let attrs: u32 = self.external_attributes;
        match self.system {
            System::Unix => {
                assert(attrs >> 16 == attrs / 65536) by (bit_vector);
                Some(attrs >> 16)
            },
            System::Dos => {
                assert((0x10 == (attrs & 0x10)) == ((attrs / 16) % 2 == 1)) by (bit_vector);
                assert((0x01 == (attrs & 0x01)) == (attrs % 2 == 1)) by (bit_vector);
                assert((0o0040000u32 | 0o0775u32) == 0o40775u32) by (bit_vector);
                assert((0o0100000u32 | 0o0664u32) == 0o100664u32) by (bit_vector);
                assert((0o40775u32 & 0o0555u32) == 0o555u32) by (bit_vector);
                assert((0o100664u32 & 0o0555u32) == 0o444u32) by (bit_vector);
                // Interpret MS-DOS directory bit
                let mut mode: u32 = if 0x10 == (attrs & 0x10) {
                    S_IFDIR | 0o0775
                } else {
                    S_IFREG | 0o0664
                };
                if 0x01 == (attrs & 0x01) {
                    // Read-only bit; strip write permissions
                    mode = mode & 0o0555;
                }
                Some(mode)
            },
            System::Unknown => None,
        }
    }

    /// True when one of the two sizes or the offset of the local header needs 64 bits.
    pub fn zip64_extension(&self) -> (r: bool)
        ensures
            r == needs_zip64(self@),
    {
        self.uncompressed_size > 0xFFFFFFFF || self.compressed_size > 0xFFFFFFFF
            || self.header_start > 0xFFFFFFFF
    }

    /// The version of the format that a reader needs for this entry.
    pub fn version_needed(&self) -> (r: u16)
        ensures
            r == version_needed_of(self@),
    {
        // higher versions matched first
        match (self.zip64_extension(), self.compression_method) {
            (_, CompressionMethod::Bzip2) => 46,
            (true, _) => 45,
            _ => 20,
        }
    }
}

} // verus!
