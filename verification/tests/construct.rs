use atomic_clock::clock::AtomicClock;
use atomic_clock::tz::{Tz, TzInfo};
use atomic_clock::{ClockError, TimeField};

fn utc() -> Tz {
    Tz::utc()
}

#[test]
fn new_basic_fields() {
    let c = AtomicClock::new(2023, 5, 6, 12, 30, 45, 123456, &utc()).unwrap();
    assert_eq!(c.year(), 2023);
    assert_eq!(c.month(), 5);
    assert_eq!(c.day(), 6);
    assert_eq!(c.hour(), 12);
    assert_eq!(c.minute(), 30);
    assert_eq!(c.second(), 45);
    assert_eq!(c.microsecond(), 123456);
    assert_eq!(c.quarter(), 2);
}

#[test]
fn new_rejects_impossible_dates() {
    assert_eq!(
        AtomicClock::new(2023, 2, 30, 0, 0, 0, 0, &utc()).unwrap_err(),
        ClockError::InvalidDateTime
    );
    assert_eq!(
        AtomicClock::new(2023, 13, 1, 0, 0, 0, 0, &utc()).unwrap_err(),
        ClockError::InvalidDateTime
    );
    assert_eq!(
        AtomicClock::new(2023, 1, 32, 0, 0, 0, 0, &utc()).unwrap_err(),
        ClockError::InvalidDateTime
    );
    assert_eq!(
        AtomicClock::new(2023, 1, 1, 24, 0, 0, 0, &utc()).unwrap_err(),
        ClockError::InvalidDateTime
    );
    // leap day exists only in leap years
    assert!(AtomicClock::new(2024, 2, 29, 0, 0, 0, 0, &utc()).is_ok());
    assert!(AtomicClock::new(2023, 2, 29, 0, 0, 0, 0, &utc()).is_err());
    assert!(AtomicClock::new(1900, 2, 29, 0, 0, 0, 0, &utc()).is_err());
    assert!(AtomicClock::new(2000, 2, 29, 0, 0, 0, 0, &utc()).is_ok());
}

#[test]
fn epoch_timestamp_round_trip() {
    let c = AtomicClock::new(1970, 1, 1, 0, 0, 0, 0, &utc()).unwrap();
    assert_eq!(c.int_timestamp(), 0);
    assert_eq!(c.timestamp_parts(), (0, 0));

    let c2 = AtomicClock::new(2023, 1, 1, 0, 0, 0, 0, &utc()).unwrap();
    assert_eq!(c2.int_timestamp(), 1672531200);

    let c3 = AtomicClock::fromtimestamp(1672531200, 0, &utc()).unwrap();
    assert!(c2.eq_instant(&c3));
}

#[test]
fn negative_timestamps_floor() {
    // half a second before the epoch floors to second -1
    let c = AtomicClock::fromtimestamp(-1, 500_000_000, &utc()).unwrap();
    assert_eq!(c.timestamp_parts(), (-1, 500_000_000));
    assert_eq!(c.year(), 1969);
    assert_eq!(c.month(), 12);
    assert_eq!(c.day(), 31);
    assert_eq!(c.hour(), 23);
    assert_eq!(c.second(), 59);
}

#[test]
fn fromordinal_first_day() {
    let c = AtomicClock::fromordinal(1).unwrap();
    assert_eq!(c.year(), 1);
    assert_eq!(c.month(), 1);
    assert_eq!(c.day(), 1);
    assert_eq!(c.hour(), 0);
    assert_eq!(c.minute(), 0);
    assert_eq!(c.second(), 0);
    assert_eq!(c.toordinal(), 1);
    assert_eq!(c.zone.offset_seconds, 0);
}

#[test]
fn fromordinal_out_of_range() {
    assert_eq!(
        AtomicClock::fromordinal(3652060).unwrap_err(),
        ClockError::OrdinalOutOfRange
    );
    assert_eq!(
        AtomicClock::fromordinal(0).unwrap_err(),
        ClockError::OrdinalOutOfRange
    );
    let last = AtomicClock::fromordinal(3652059).unwrap();
    assert_eq!(last.year(), 9999);
    assert_eq!(last.month(), 12);
    assert_eq!(last.day(), 31);
}

#[test]
fn toordinal_matches_construction() {
    let c = AtomicClock::new(2023, 5, 6, 23, 59, 59, 999999, &utc()).unwrap();
    let o = c.toordinal();
    let back = AtomicClock::fromordinal(o).unwrap();
    assert_eq!(back.year(), 2023);
    assert_eq!(back.month(), 5);
    assert_eq!(back.day(), 6);
}

#[test]
fn weekday_indexing() {
    // the epoch day was a Thursday
    let c = AtomicClock::new(1970, 1, 1, 0, 0, 0, 0, &utc()).unwrap();
    assert_eq!(c.weekday(), 3);
    assert_eq!(c.isoweekday(), 4);
    // 2023-01-01 was a Sunday
    let s = AtomicClock::new(2023, 1, 1, 0, 0, 0, 0, &utc()).unwrap();
    assert_eq!(s.weekday(), 6);
    assert_eq!(s.isoweekday(), 0);
}

#[test]
fn isocalendar_year_boundary() {
    // 2023-01-01 falls in ISO week 52 of ISO year 2022
    let s = AtomicClock::new(2023, 1, 1, 0, 0, 0, 0, &utc()).unwrap();
    let icd = s.isocalendar().unwrap();
    assert_eq!(icd.year(), 2022);
    assert_eq!(icd.week(), 52);
    assert_eq!(icd.weekday(), 0);
    // 2021-01-04 opens ISO week 1 of 2021
    let m = AtomicClock::new(2021, 1, 4, 0, 0, 0, 0, &utc()).unwrap();
    let icd2 = m.isocalendar().unwrap();
    assert_eq!(icd2.year(), 2021);
    assert_eq!(icd2.week(), 1);
    assert_eq!(m.week().unwrap(), 1);
}

#[test]
fn now_and_utcnow_are_wellformed() {
    let a = AtomicClock::utcnow().unwrap();
    assert!(a.year() >= 2020);
    let z = Tz::local();
    let b = AtomicClock::now(&z).unwrap();
    // both read the same clock up to the call gap
    assert!(b.sub_moment(&a).abs() < 60 * 1_000_000_000);
}

#[test]
fn instant_comparisons_ignore_zone() {
    let utc5 = Tz::new(&TzInfo::Named("+05:00".to_string()), 0).unwrap();
    let a = AtomicClock::fromtimestamp(1672531200, 0, &utc()).unwrap();
    let b = a.to(&utc5).unwrap();
    assert!(a.eq_instant(&b));
    assert_eq!(b.hour(), 5);
    assert_eq!(a.hour(), 0);
    assert!(!a.lt(&b));
    assert!(a.le(&b));
    assert_eq!(a.sub_moment(&b), 0);
}

#[test]
fn replace_single_fields() {
    let c = AtomicClock::new(2023, 1, 15, 10, 20, 30, 400000, &utc()).unwrap();
    let c2 = c
        .replace(Some(2024), None, None, None, None, None, None, None)
        .unwrap();
    assert_eq!(c2.year(), 2024);
    assert_eq!(c2.day(), 15);
    let c3 = c.replace(None, None, None, Some(0), Some(0), Some(0), Some(0), None).unwrap();
    assert_eq!(c3.hour(), 0);
    assert_eq!(c3.microsecond(), 0);
    assert_eq!(c3.day(), 15);
}

#[test]
fn replace_field_errors() {
    let c = AtomicClock::new(2023, 1, 31, 0, 0, 0, 0, &utc()).unwrap();
    // January 31st cannot move to February directly
    assert_eq!(
        c.replace(None, Some(2), None, None, None, None, None, None).unwrap_err(),
        ClockError::InvalidField(TimeField::Month)
    );
    let leap = AtomicClock::new(2024, 2, 29, 0, 0, 0, 0, &utc()).unwrap();
    assert_eq!(
        leap.replace(Some(2023), None, None, None, None, None, None, None).unwrap_err(),
        ClockError::InvalidField(TimeField::Year)
    );
    assert_eq!(
        c.replace(None, None, None, Some(24), None, None, None, None).unwrap_err(),
        ClockError::InvalidField(TimeField::Hour)
    );
    assert_eq!(
        c.replace(None, None, None, None, None, None, Some(1_000_000), None).unwrap_err(),
        ClockError::InvalidField(TimeField::Microsecond)
    );
}

#[test]
fn replace_zone_rebases_instant() {
    let utc5 = Tz::new(&TzInfo::Named("+05:00".to_string()), 0).unwrap();
    let c = AtomicClock::new(2023, 1, 15, 10, 0, 0, 0, &utc()).unwrap();
    let c2 = c
        .replace(None, None, None, None, None, None, None, Some(&utc5))
        .unwrap();
    // same instant, new wall clock
    assert!(c.eq_instant(&c2));
    assert_eq!(c2.hour(), 15);
}

#[test]
fn error_messages() {
    assert_eq!(ClockError::InvalidDateTime.message(), "invalid datetime");
    assert_eq!(
        ClockError::InvalidField(TimeField::Day).message(),
        "invalid day"
    );
    assert_eq!(
        ClockError::InvalidInterval.message(),
        "interval has to be a positive int"
    );
}

#[test]
fn fromdatetime_uses_attached_or_utc() {
    let c = AtomicClock::fromdatetime(2023, 5, 6, 7, 8, 9, 10, None).unwrap();
    assert_eq!(c.zone.offset_seconds, 0);
    assert_eq!((c.year(), c.hour(), c.microsecond()), (2023, 7, 10));
    let z = Tz::new(&TzInfo::Named("+02:00".to_string()), 0).unwrap();
    let d = AtomicClock::fromdatetime(2023, 5, 6, 7, 8, 9, 10, Some(&z)).unwrap();
    assert_eq!(d.hour(), 7);
    assert_eq!(d.int_timestamp(), c.int_timestamp() - 7200);
}

#[test]
fn fromdate_is_midnight() {
    let z = Tz::new(&TzInfo::Named("+02:00".to_string()), 0).unwrap();
    let c = AtomicClock::fromdate(2023, 5, 6, &z).unwrap();
    assert_eq!((c.hour(), c.minute(), c.second(), c.microsecond()), (0, 0, 0, 0));
    assert_eq!((c.year(), c.month(), c.day()), (2023, 5, 6));
    assert!(AtomicClock::fromdate(2023, 2, 29, &z).is_err());
}

#[test]
fn moment_zone_accessors() {
    let z = Tz::new(&TzInfo::Named("America/New_York".to_string()), 1688212800).unwrap();
    let c = AtomicClock::fromtimestamp(1688212800, 0, &z).unwrap();
    assert_eq!(c.utcoffset(), -14400);
    assert_eq!(c.dst(), 3600);
    assert_eq!(c.zone.tzname(), Some("America/New_York"));
    let f = Tz::new(&TzInfo::Named("+05:00".to_string()), 0).unwrap();
    assert_eq!(f.tzname(), None);
}
