//! Calendar and clock value tests: construction, conversion and formatting.
use edgedb_protocol::model::{Datetime, Duration, LocalDate, LocalDatetime, LocalTime};
use std::time::Duration as StdDuration;

#[test]
fn big_duration_abs() {
    assert_eq!(Duration::from_micros(-1).abs_duration(), StdDuration::new(0, 1000));
    assert_eq!(Duration::from_micros(-1000).abs_duration(), StdDuration::new(0, 1000000));
    assert_eq!(Duration::from_micros(-1000000).abs_duration(), StdDuration::new(1, 0));
    assert_eq!(
        Duration::from_micros(i64::min_value()).abs_duration(),
        StdDuration::new(9223372036854, 775808000)
    );
}

#[test]
fn local_date_from_ymd() {
    assert_eq!(0, LocalDate::from_ymd(2000, 1, 1).to_days());
    assert_eq!(-365, LocalDate::from_ymd(1999, 1, 1).to_days());
    assert_eq!(366, LocalDate::from_ymd(2001, 1, 1).to_days());
    assert_eq!(-730119, LocalDate::from_ymd(0001, 1, 1).to_days());
    assert_eq!(2921575, LocalDate::from_ymd(9999, 1, 1).to_days());

    assert!(LocalDate::try_from_ymd(2001, 1, 32).is_err());
    assert!(LocalDate::try_from_ymd(2001, 2, 29).is_err());
}

#[test]
fn local_date_from_ymd_leap_year() {
    let days_in_month_leap = [31, 29, 31, 30, 31, 30, 31, 31, 30, 31, 30, 31];
    let mut total_days = 0;
    let start_of_year = 365 * 4 + 1;
    for month in 1..=12 {
        let start_of_month = LocalDate::from_ymd(2004, month as u8, 1).to_days();
        assert_eq!(total_days, start_of_month - start_of_year);

        let days_in_current_month = days_in_month_leap[month - 1];
        total_days += days_in_current_month;

        let end_of_month =
            LocalDate::from_ymd(2004, month as u8, days_in_current_month as u8).to_days();
        assert_eq!(total_days - 1, end_of_month - start_of_year);
    }
    assert_eq!(366, total_days);
}

const DAYS_IN_MONTH_LEAP: [u8; 12] = [31, 28, 31, 30, 31, 30, 31, 31, 30, 31, 30, 31];

#[test]
fn local_date_from_ymd_normal_year() {
    let mut total_days = 0;
    let start_of_year = 365 + 1;
    for month in 1..=12 {
        let start_of_month = LocalDate::from_ymd(2001, month as u8, 1).to_days();
        assert_eq!(total_days, start_of_month - start_of_year);

        let days_in_current_month = DAYS_IN_MONTH_LEAP[month - 1];
        total_days += days_in_current_month as i32;

        let end_of_month =
            LocalDate::from_ymd(2001, month as u8, days_in_current_month as u8).to_days();
        assert_eq!(total_days - 1, end_of_month - start_of_year);
    }
    assert_eq!(365, total_days);
}

fn extended_test_dates() -> impl Iterator<Item = (i32, u8, u8)> {
    const YEARS: [i32; 27] = [
        -4700, -4400, -1, 0, 1, 2, 1000, 1999, 2000, 2001, 2002, 2003, 2004, 2008, 2009, 2010,
        2100, 2200, 2300, 2400, 9000, 9999, 10000, 10001, 11000, 20000, 100000,
    ];

    const MONTHS: std::ops::RangeInclusive<u8> = 1u8..=12;
    const DAYS: [u8; 6] = [1u8, 13, 28, 29, 30, 31];
    let dates = MONTHS.flat_map(|month| DAYS.iter().map(move |day| (month, *day)));

    YEARS
        .iter()
        .flat_map(move |year| dates.clone().map(move |date| (*year, date.0, date.1)))
}

fn valid_test_dates() -> impl Iterator<Item = (i32, u8, u8)> {
    extended_test_dates().filter(|date| LocalDate::try_from_ymd(date.0, date.1, date.2).is_ok())
}

#[test]
fn check_test_dates() {
    assert!(valid_test_dates().count() > 1000);
}

#[test]
fn local_date_ymd_roundtrip() {
    for (year, month, day) in valid_test_dates() {
        assert_eq!((year, month, day), LocalDate::from_ymd(year, month, day).to_ymd());
    }
}

#[test]
fn format_local_date() {
    const DAYS_IN_2000_YEARS: i32 = 730485;
    assert_eq!("2000-01-01", LocalDate::from_days(0).to_display_string());
    assert_eq!(
        "0000-01-01",
        LocalDate::from_days(-DAYS_IN_2000_YEARS).to_display_string()
    );
    assert_eq!(
        "0001-01-01",
        LocalDate::from_days(-DAYS_IN_2000_YEARS + 366).to_display_string()
    );
    assert_eq!(
        "-0001-01-01",
        LocalDate::from_days(-DAYS_IN_2000_YEARS - 365).to_display_string()
    );
    assert_eq!(
        "-4000-01-01",
        LocalDate::from_days(-3 * DAYS_IN_2000_YEARS).to_display_string()
    );
    assert_eq!(
        "+10001-01-01",
        LocalDate::from_days(4 * DAYS_IN_2000_YEARS + 366).to_display_string()
    );
}

#[test]
fn format_local_time() {
    assert_eq!("00:00:00", LocalTime::from_micros(0).to_display_string());
    assert_eq!("00:00:00.010", LocalTime::from_micros(10_000).to_display_string());
    assert_eq!("00:00:00.010020", LocalTime::from_micros(10_020).to_display_string());
    assert_eq!(
        "23:59:59.999999",
        LocalTime::from_micros(86_400_000_000 - 1).to_display_string()
    );
}

#[test]
fn format_local_datetime() {
    assert_eq!(
        "2039-02-13 23:31:30.123456",
        LocalDatetime::from_micros(1_234_567_890_123_456).to_display_string()
    );
    assert_eq!(
        "2039-02-13T23:31:30.123456",
        LocalDatetime::from_micros(1_234_567_890_123_456).to_debug_string()
    );
}

#[test]
fn format_datetime() {
    assert_eq!(
        "2039-02-13 23:31:30.123456 UTC",
        Datetime::from_micros(1_234_567_890_123_456).to_display_string()
    );
    assert_eq!(
        "2039-02-13T23:31:30.123456Z",
        Datetime::from_micros(1_234_567_890_123_456).to_debug_string()
    );
}

#[test]
fn duration_signs() {
    let pos = Duration::from_micros(5);
    let zero = Duration::from_micros(0);
    let neg = Duration::from_micros(-5);
    assert!(pos.is_positive() && !pos.is_negative());
    assert!(!zero.is_positive() && !zero.is_negative());
    assert!(!neg.is_positive() && neg.is_negative());
    assert_eq!(5, pos.to_micros());
}

#[test]
fn local_datetime_parts() {
    let dt = LocalDatetime::from_micros(1_234_567_890_123_456);
    assert_eq!(dt.date().to_days(), 14288);
    assert_eq!(dt.time().to_micros(), 84_690_123_456);
    let neg = LocalDatetime::from_micros(-1);
    assert_eq!(neg.date().to_days(), -1);
    assert_eq!(neg.time().to_micros(), 86_400_000_000 - 1);
}
