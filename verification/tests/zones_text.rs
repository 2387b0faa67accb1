use atomic_clock::clock::AtomicClock;
use atomic_clock::get::{get, GetArg};
use atomic_clock::tz::{Tz, TzInfo};
use atomic_clock::ClockError;

fn utc() -> Tz {
    Tz::utc()
}

#[test]
fn resolve_utc_and_offsets() {
    let z = Tz::new(&TzInfo::Named("utc".to_string()), 0).unwrap();
    assert_eq!(z.utcoffset(), 0);
    assert_eq!(z.dst(), 0);
    let z2 = Tz::new(&TzInfo::Named("UTC".to_string()), 0).unwrap();
    assert_eq!(z2.utcoffset(), 0);
    let p = Tz::new(&TzInfo::Named("+05:30".to_string()), 0).unwrap();
    assert_eq!(p.utcoffset(), 19800);
    assert_eq!(p.dst_offset(), 0);
    let m = Tz::new(&TzInfo::Named("-08:00".to_string()), 0).unwrap();
    assert_eq!(m.utcoffset(), -28800);
}

#[test]
fn resolve_bad_offsets() {
    assert_eq!(
        Tz::new(&TzInfo::Named("25:00".to_string()), 0).unwrap_err(),
        ClockError::InvalidOffset
    );
    assert_eq!(
        Tz::new(&TzInfo::Named("+24:00".to_string()), 0).unwrap_err(),
        ClockError::InvalidOffset
    );
    assert_eq!(
        Tz::new(&TzInfo::Named("+05:60".to_string()), 0).unwrap_err(),
        ClockError::InvalidOffset
    );
    assert_eq!(
        Tz::new(&TzInfo::Named("a:b".to_string()), 0).unwrap_err(),
        ClockError::InvalidOffset
    );
}

#[test]
fn resolve_named_zone_against_reference_instant() {
    // New York sits at UTC-5 in January and UTC-4 (DST 1h) in July 2023
    let winter = Tz::new(&TzInfo::Named("America/New_York".to_string()), 1672531200).unwrap();
    assert_eq!(winter.utcoffset(), -18000);
    assert_eq!(winter.dst(), 0);
    let summer = Tz::new(&TzInfo::Named("America/New_York".to_string()), 1688212800).unwrap();
    assert_eq!(summer.utcoffset(), -14400);
    assert_eq!(summer.dst(), 3600);
}

#[test]
fn resolve_unknown_zone() {
    assert_eq!(
        Tz::new(&TzInfo::Named("Mars/Olympus_Mons".to_string()), 0).unwrap_err(),
        ClockError::UnknownZoneName
    );
}

#[test]
fn resolve_external_handles() {
    let ok = Tz::new(
        &TzInfo::External {
            offset_seconds: Some(3600),
            dst_seconds: Some(0),
            name: Some("ext".to_string()),
        },
        0,
    )
    .unwrap();
    assert_eq!(ok.utcoffset(), 3600);
    assert_eq!(
        Tz::new(
            &TzInfo::External { offset_seconds: None, dst_seconds: None, name: None },
            0
        )
        .unwrap_err(),
        ClockError::ExternalZoneQueryFailed
    );
    assert_eq!(
        Tz::new(
            &TzInfo::External { offset_seconds: Some(90000), dst_seconds: None, name: None },
            0
        )
        .unwrap_err(),
        ClockError::InvalidOffset
    );
}

#[test]
fn resolve_local_is_bounded() {
    let z = Tz::new(&TzInfo::Named("local".to_string()), 0).unwrap();
    assert!(z.utcoffset() > -86400 && z.utcoffset() < 86400);
    let z2 = TzInfo::Named("local".to_string()).try_to_tz().unwrap();
    assert_eq!(z.utcoffset(), z2.utcoffset());
}

#[test]
fn zone_equality_is_by_offset() {
    let a = Tz::new(&TzInfo::Named("+01:00".to_string()), 0).unwrap();
    let b = Tz::build(3600, "somewhere".to_string(), Some(0));
    assert!(a.eq_zone(&b));
    let c = Tz::utc();
    assert!(!a.eq_zone(&c));
}

#[test]
fn strftime_round_trip() {
    // a format that captures every non-zero field round-trips exactly
    let x = AtomicClock::new(2023, 5, 6, 12, 30, 45, 123456, &utc()).unwrap();
    let fmt = "%Y-%m-%dT%H:%M:%S%.f%z";
    let text = x.format(fmt).unwrap();
    let y = AtomicClock::strptime(&text, fmt, None).unwrap();
    assert!(x.eq_instant(&y));
    assert_eq!(y.zone.offset_seconds, 0);
    assert_eq!(y.microsecond(), 123456);
}

#[test]
fn strftime_renders_fields() {
    let x = AtomicClock::new(2023, 5, 6, 7, 8, 9, 0, &utc()).unwrap();
    assert_eq!(x.format("%Y-%m-%d %H:%M:%S").unwrap(), "2023-05-06 07:08:09");
    assert_eq!(x.ctime().unwrap(), "Sat May  6 07:08:09 2023");
    let in5 = x.to(&Tz::new(&TzInfo::Named("+05:00".to_string()), 0).unwrap()).unwrap();
    assert_eq!(in5.format("%H:%M %z").unwrap(), "12:08 +0500");
}

#[test]
fn strftime_rejects_bad_format() {
    let x = AtomicClock::new(2023, 5, 6, 7, 8, 9, 0, &utc()).unwrap();
    assert_eq!(x.format("%Y %").unwrap_err(), ClockError::ParseFailure);
}

#[test]
fn strptime_defaults_absent_fields() {
    // a time-only format defaults the date to year 0, January 1st
    let c = AtomicClock::strptime("12:30", "%H:%M", None).unwrap();
    assert_eq!(c.year(), 0);
    assert_eq!(c.month(), 1);
    assert_eq!(c.day(), 1);
    assert_eq!(c.hour(), 12);
    assert_eq!(c.minute(), 30);
    // a date-only format defaults the time to midnight, offset 0
    let d = AtomicClock::strptime("2023-05-06", "%Y-%m-%d", None).unwrap();
    assert_eq!((d.hour(), d.minute(), d.second()), (0, 0, 0));
    assert_eq!(d.zone.offset_seconds, 0);
}

#[test]
fn strptime_reads_offsets() {
    let c = AtomicClock::strptime("2023-05-06T10:00:00+05:30", "%Y-%m-%dT%H:%M:%S%z", None)
        .unwrap();
    assert_eq!(c.zone.offset_seconds, 19800);
    assert_eq!(c.hour(), 10);
    assert_eq!(c.int_timestamp(), 1683367200 - 19800);
}

#[test]
fn strptime_rejects_mismatches() {
    assert_eq!(
        AtomicClock::strptime("not a date", "%Y-%m-%d", None).unwrap_err(),
        ClockError::ParseFailure
    );
    assert_eq!(
        AtomicClock::strptime("2023-02-30", "%Y-%m-%d", None).unwrap_err(),
        ClockError::ParseFailure
    );
}

#[test]
fn isoformat_timespecs() {
    let x = AtomicClock::new(2023, 5, 6, 7, 8, 9, 123456, &utc()).unwrap();
    assert_eq!(x.isoformat("T", "seconds").unwrap(), "2023-05-06T07:08:09");
    assert_eq!(x.isoformat(" ", "minutes").unwrap(), "2023-05-06 07:08");
    assert_eq!(x.isoformat("T", "hours").unwrap(), "2023-05-06T07");
    assert_eq!(
        x.isoformat("T", "milliseconds").unwrap(),
        "2023-05-06T07:08:09.123"
    );
    assert_eq!(
        x.isoformat("T", "auto").unwrap(),
        "2023-05-06T07:08:09.123456+00:00"
    );
    assert_eq!(
        x.isoformat("T", "nanoseconds").unwrap_err(),
        ClockError::UnknownTimespec
    );
}

#[test]
fn for_json_shape() {
    let x = AtomicClock::new(2023, 5, 6, 7, 8, 9, 0, &utc()).unwrap();
    let t = x.for_json().unwrap();
    assert!(t.starts_with("2023-05-06T07:08:09"));
}

#[test]
fn get_dispatches_on_argument_shape() {
    // no arguments: the current instant
    let now = get(&vec![], None).unwrap();
    assert!(now.year() >= 2020);
    // a timestamp
    let t = get(&vec![GetArg::Timestamp(1672531200, 0)], None).unwrap();
    assert_eq!((t.year(), t.month(), t.day()), (2023, 1, 1));
    // a bare integer is a timestamp in seconds
    let i = get(&vec![GetArg::Int(1672531200)], None).unwrap();
    assert!(i.eq_instant(&t));
    // ISO-like text
    let s = get(&vec![GetArg::Text("2023-01-01T00:00:00".to_string())], None).unwrap();
    assert!(s.eq_instant(&t));
    // text with an explicit format
    let f = get(
        &vec![
            GetArg::Text("06/05/2023".to_string()),
            GetArg::Text("%d/%m/%Y".to_string()),
        ],
        None,
    )
    .unwrap();
    assert_eq!((f.year(), f.month(), f.day()), (2023, 5, 6));
    // positional fields
    let p = get(
        &vec![GetArg::Int(2023), GetArg::Int(5), GetArg::Int(6)],
        None,
    )
    .unwrap();
    assert_eq!((p.year(), p.month(), p.day()), (2023, 5, 6));
    // a trailing zone argument re-bases the wall clock
    let p8 = get(
        &vec![
            GetArg::Int(2023),
            GetArg::Int(5),
            GetArg::Int(6),
            GetArg::Int(1),
            GetArg::Int(2),
            GetArg::Int(3),
            GetArg::Int(4),
            GetArg::Zone(Tz::build(3600, "x".to_string(), None)),
        ],
        None,
    )
    .unwrap();
    assert_eq!(p8.hour(), 1);
    assert_eq!(p8.zone.offset_seconds, 3600);
    // an unusable shape is rejected
    assert_eq!(
        get(&vec![GetArg::Int(1), GetArg::Int(2)], None).unwrap_err(),
        ClockError::ParseFailure
    );
}

#[test]
fn get_rebases_into_tzinfo() {
    let plus5 = Tz::new(&TzInfo::Named("+05:00".to_string()), 0).unwrap();
    let t = get(&vec![GetArg::Timestamp(1672531200, 0)], Some(&plus5)).unwrap();
    assert_eq!(t.hour(), 5);
    assert_eq!(t.int_timestamp(), 1672531200);
}

#[test]
fn get_from_civil_values() {
    let dt = get(
        &vec![GetArg::CivilDateTime {
            year: 2023,
            month: 5,
            day: 6,
            hour: 7,
            minute: 8,
            second: 9,
            microsecond: 10,
            zone: None,
        }],
        None,
    )
    .unwrap();
    assert_eq!((dt.year(), dt.hour(), dt.microsecond()), (2023, 7, 10));
    let d = get(
        &vec![GetArg::CivilDate { year: 2023, month: 5, day: 6 }],
        None,
    )
    .unwrap();
    assert_eq!((d.year(), d.month(), d.day(), d.hour()), (2023, 5, 6, 0));
}
