use time::format_description::well_known::Rfc3339;
use time::{Date, Month, OffsetDateTime, PrimitiveDateTime, Time, UtcOffset};
use zip::result::{ComponentBounds, DateTimeRangeError};
use zip::types::DateTime;

fn utc_time(year: i32, month: Month, day: u8, hour: u8, minute: u8, second: u8) -> OffsetDateTime {
    PrimitiveDateTime::new(
        Date::from_calendar_date(year, month, day).unwrap(),
        Time::from_hms(hour, minute, second).unwrap(),
    )
    .assume_utc()
}

#[test]
fn datetime_try_from_bounds() {
    // 1979-12-31 23:59:59
    assert!(DateTime::try_from_time(utc_time(1979, Month::December, 31, 23, 59, 59)).is_err());

    // 1980-01-01 00:00:00
    assert!(DateTime::try_from_time(utc_time(1980, Month::January, 1, 0, 0, 0)).is_ok());

    // 2107-12-31 23:59:59
    assert!(DateTime::try_from_time(utc_time(2107, Month::December, 31, 23, 59, 59)).is_ok());

    // 2108-01-01 00:00:00
    assert!(DateTime::try_from_time(utc_time(2108, Month::January, 1, 0, 0, 0)).is_err());
}

#[test]
fn time_conversion() {
    let dt = DateTime::from_msdos(0x4D71, 0x54CF);
    assert_eq!(dt.year(), 2018);
    assert_eq!(dt.month(), 11);
    assert_eq!(dt.day(), 17);
    assert_eq!(dt.hour(), 10);
    assert_eq!(dt.minute(), 38);
    assert_eq!(dt.second(), 30);

    let offset_time = dt.to_time_with_offset(UtcOffset::UTC).unwrap();
    assert_eq!(dt.to_time().unwrap(), offset_time);
    assert_eq!(offset_time.format(&Rfc3339).unwrap(), "2018-11-17T10:38:30Z");
}

#[test]
fn time_out_of_bounds() {
    let dt = DateTime::from_msdos(0xFFFF, 0xFFFF);
    assert_eq!(dt.year(), 2107);
    assert_eq!(dt.month(), 15);
    assert_eq!(dt.day(), 31);
    assert_eq!(dt.hour(), 31);
    assert_eq!(dt.minute(), 63);
    assert_eq!(dt.second(), 62);

    assert!(dt.to_time().is_err());
    assert!(dt.to_time_with_offset(UtcOffset::UTC).is_err());

    let dt = DateTime::from_msdos(0x0000, 0x0000);
    assert_eq!(dt.year(), 1980);
    assert_eq!(dt.month(), 0);
    assert_eq!(dt.day(), 0);
    assert_eq!(dt.hour(), 0);
    assert_eq!(dt.minute(), 0);
    assert_eq!(dt.second(), 0);

    assert!(dt.to_time().is_err());
    assert!(dt.to_time_with_offset(UtcOffset::UTC).is_err());
}

#[test]
fn time_at_january() {
    // 2020-01-01 00:00:00
    let clock = OffsetDateTime::from_unix_timestamp(1_577_836_800).unwrap();

    assert!(DateTime::try_from_time(clock).is_ok());
}

#[test]
fn msdos_pair_round_trip() {
    for &(d, t) in &[
        (0u16, 0u16),
        (0xFFFF, 0xFFFF),
        (0x4D71, 0x54CF),
        (0x0021, 0x0001),
        (0x8000, 0x8000),
        (0x1234, 0xABCD),
    ] {
        let dt = DateTime::from_msdos(d, t);
        assert_eq!((dt.datepart(), dt.timepart()), (d, t));
    }
    let mut d: u32 = 0;
    while d <= 0xFFFF {
        let dt = DateTime::from_msdos(d as u16, (d as u16).wrapping_mul(31));
        assert_eq!(dt.datepart(), d as u16);
        assert_eq!(dt.timepart(), (d as u16).wrapping_mul(31));
        d += 97;
    }
}

#[test]
fn packing_rounds_an_odd_second_down() {
    let dt = DateTime::parse_from_date_and_time(2018, 11, 17, 10, 38, 31).unwrap();
    let again = DateTime::from_msdos(dt.datepart(), dt.timepart());
    assert_eq!(again.year(), 2018);
    assert_eq!(again.month(), 11);
    assert_eq!(again.day(), 17);
    assert_eq!(again.hour(), 10);
    assert_eq!(again.minute(), 38);
    assert_eq!(again.second(), 30);
}

#[test]
fn range_errors_name_the_first_component_out_of_bounds() {
    assert_eq!(
        DateTime::parse_from_date_and_time(1979, 13, 0, 24, 60, 61).unwrap_err(),
        DateTimeRangeError::InvalidYear(1979, ComponentBounds { min: 1980, max: 2107 })
    );
    assert_eq!(
        DateTime::parse_from_date_and_time(1980, 13, 0, 24, 60, 61).unwrap_err(),
        DateTimeRangeError::InvalidMonth(13, ComponentBounds { min: 1, max: 12 })
    );
    assert_eq!(
        DateTime::parse_from_date_and_time(1980, 12, 0, 24, 60, 61).unwrap_err(),
        DateTimeRangeError::InvalidDay(0, ComponentBounds { min: 1, max: 31 })
    );
    assert_eq!(
        DateTime::parse_from_date_and_time(1980, 12, 31, 24, 60, 61).unwrap_err(),
        DateTimeRangeError::InvalidHour(24, ComponentBounds { min: 0, max: 23 })
    );
    assert_eq!(
        DateTime::parse_from_date_and_time(1980, 12, 31, 23, 60, 61).unwrap_err(),
        DateTimeRangeError::InvalidMinute(60, ComponentBounds { min: 0, max: 59 })
    );
    assert_eq!(
        DateTime::parse_from_date_and_time(1980, 12, 31, 23, 59, 61).unwrap_err(),
        DateTimeRangeError::InvalidSecond(61, ComponentBounds { min: 0, max: 60 })
    );
    assert_eq!(DateTime::from_date_and_time(1980, 12, 31, 23, 59, 61).unwrap_err(), ());
    assert!(DateTime::from_date_and_time(1980, 12, 31, 23, 59, 60).is_ok());
    assert!(DateTime::check_year(1980).is_ok());
    assert!(DateTime::check_month(0).is_err());
    assert!(DateTime::check_day(31).is_ok());
    assert!(DateTime::check_hour(24).is_err());
    assert!(DateTime::check_minute(59).is_ok());
    assert!(DateTime::check_second(60).is_ok());
}

#[test]
fn foreign_year_that_does_not_fit_is_a_conversion_error() {
    assert_eq!(
        DateTime::try_from_components(70000, 1, 1, 0, 0, 0).unwrap_err(),
        DateTimeRangeError::NumericConversion(70000)
    );
    assert_eq!(
        DateTime::try_from_components(-1, 1, 1, 0, 0, 0).unwrap_err(),
        DateTimeRangeError::NumericConversion(-1)
    );
    assert_eq!(
        DateTime::try_from_components(1979, 1, 1, 0, 0, 0).unwrap_err(),
        DateTimeRangeError::InvalidYear(1979, ComponentBounds { min: 1980, max: 2107 })
    );
    let dt = DateTime::try_from_components(2020, 2, 29, 12, 30, 59).unwrap();
    assert_eq!((dt.year(), dt.month(), dt.day()), (2020, 2, 29));
    assert!(DateTime::from_time(utc_time(1979, Month::December, 31, 23, 59, 59)).is_err());
    let dt = DateTime::from_time(utc_time(2001, Month::February, 3, 4, 5, 6)).unwrap();
    assert_eq!(
        (dt.year(), dt.month(), dt.day(), dt.hour(), dt.minute(), dt.second()),
        (2001, 2, 3, 4, 5, 6)
    );
}

#[test]
fn calendar_is_checked_on_the_way_out() {
    // 2019 is no leap year, 2020 is one.
    assert!(DateTime::parse_from_date_and_time(2019, 2, 29, 0, 0, 0).unwrap().to_time().is_err());
    assert!(DateTime::parse_from_date_and_time(2020, 2, 29, 0, 0, 0).unwrap().to_time().is_ok());
    assert!(DateTime::parse_from_date_and_time(2100, 2, 29, 0, 0, 0).unwrap().to_time().is_err());
    assert!(DateTime::parse_from_date_and_time(2020, 4, 31, 0, 0, 0).unwrap().to_time().is_err());
    assert!(DateTime::parse_from_date_and_time(2020, 4, 30, 23, 59, 59).unwrap().to_time().is_ok());
    // The time crate has no leap second.
    assert!(DateTime::parse_from_date_and_time(2020, 4, 30, 23, 59, 60).unwrap().to_time().is_err());
    let there = DateTime::parse_from_date_and_time(2020, 4, 30, 23, 59, 58).unwrap();
    let offset = UtcOffset::from_hms(2, 0, 0).unwrap();
    let out = there.to_time_with_offset(offset).unwrap();
    assert_eq!(out.format(&Rfc3339).unwrap(), "2020-04-30T23:59:58+02:00");
}

#[test]
fn only_the_year_of_a_timestamp_can_be_refused() {
    assert_eq!(
        DateTime::try_from_time(utc_time(1979, Month::December, 31, 23, 59, 59)).unwrap_err(),
        DateTimeRangeError::InvalidYear(1979, ComponentBounds { min: 1980, max: 2107 })
    );
    assert_eq!(
        DateTime::try_from_time(utc_time(2108, Month::January, 1, 0, 0, 0)).unwrap_err(),
        DateTimeRangeError::InvalidYear(2108, ComponentBounds { min: 1980, max: 2107 })
    );
    assert_eq!(
        DateTime::try_from_time(utc_time(-1, Month::January, 1, 0, 0, 0)).unwrap_err(),
        DateTimeRangeError::NumericConversion(-1)
    );
    let dt = DateTime::try_from_time(utc_time(2107, Month::December, 31, 23, 59, 59)).unwrap();
    assert_eq!(
        (dt.year(), dt.month(), dt.day(), dt.hour(), dt.minute(), dt.second()),
        (2107, 12, 31, 23, 59, 59)
    );
    // The components are those at the timestamp's own offset.
    let shifted = utc_time(1980, Month::January, 1, 0, 30, 0)
        .to_offset(UtcOffset::from_hms(-1, 0, 0).unwrap());
    assert!(DateTime::try_from_time(shifted).is_err());
    assert!(DateTime::from_time(shifted).is_err());
}
