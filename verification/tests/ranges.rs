use atomic_clock::clock::AtomicClock;
use atomic_clock::span::{Bounds, Frame};
use atomic_clock::tz::{Tz, TzInfo};
use atomic_clock::ClockError;

fn utc() -> Tz {
    Tz::utc()
}

fn ymd(y: i64, m: i64, d: i64) -> AtomicClock {
    AtomicClock::new(y, m, d, 0, 0, 0, 0, &utc()).unwrap()
}

#[test]
fn day_range_includes_end() {
    // three days, end included because its instant is not exceeded
    let start = ymd(2023, 1, 1);
    let end = ymd(2023, 1, 3);
    let mut gen = AtomicClock::range(Frame::Day, &start, Some(&end), None, None).unwrap();
    let a = gen.next().unwrap();
    let b = gen.next().unwrap();
    let c = gen.next().unwrap();
    assert_eq!((a.month(), a.day()), (1, 1));
    assert_eq!((b.month(), b.day()), (1, 2));
    assert_eq!((c.month(), c.day()), (1, 3));
    assert!(gen.next().is_none());
    assert!(gen.next().is_none());
}

#[test]
fn range_respects_limit() {
    let start = ymd(2023, 1, 1);
    let mut gen = AtomicClock::range(Frame::Month, &start, None, None, Some(3)).unwrap();
    let mut seen = 0u64;
    while let Some(_) = gen.next() {
        seen += 1;
    }
    assert_eq!(seen, 3);
}

#[test]
fn range_rejects_end_before_start() {
    let start = ymd(2023, 1, 3);
    let end = ymd(2023, 1, 1);
    assert_eq!(
        AtomicClock::range(Frame::Day, &start, Some(&end), None, None).unwrap_err(),
        ClockError::RangeEndBeforeStart
    );
}

#[test]
fn range_with_zone_keeps_instants() {
    let start = ymd(2023, 1, 1);
    let end = ymd(2023, 1, 2);
    let plus5 = Tz::new(&TzInfo::Named("+05:00".to_string()), 0).unwrap();
    let mut gen = AtomicClock::range(Frame::Day, &start, Some(&end), Some(&plus5), None).unwrap();
    let first = gen.next().unwrap();
    assert!(first.eq_instant(&start));
    assert_eq!(first.hour(), 5);
}

#[test]
fn month_range_steps_by_calendar_month() {
    let start = ymd(2023, 1, 31);
    let end = ymd(2023, 4, 30);
    let mut gen = AtomicClock::range(Frame::Month, &start, Some(&end), None, None).unwrap();
    let days: Vec<(i64, i64)> = std::iter::from_fn(|| gen.next()).map(|c| (c.month(), c.day())).collect();
    assert_eq!(days, vec![(1, 31), (2, 28), (3, 28), (4, 28)]);
}

#[test]
fn span_range_yields_whole_frames() {
    let start = AtomicClock::new(2023, 1, 1, 10, 0, 0, 0, &utc()).unwrap();
    let end = ymd(2023, 1, 3);
    let mut it = AtomicClock::span_range(
        Frame::Day,
        &start,
        &end,
        None,
        None,
        Bounds::StartInclude,
        false,
    )
    .unwrap();
    // the start is floored to its day before stepping
    let (f1, c1) = it.next().unwrap();
    assert_eq!((f1.day(), f1.hour()), (1, 0));
    assert_eq!((c1.day(), c1.hour(), c1.second()), (1, 23, 59));
    assert_eq!(c1.subsec_nanosecond(), 999_999_999);
    let (f2, _c2) = it.next().unwrap();
    assert_eq!(f2.day(), 2);
    let (f3, _c3) = it.next().unwrap();
    assert_eq!(f3.day(), 3);
    assert!(it.next().is_none());
}

#[test]
fn interval_steps_by_count() {
    let start = ymd(2023, 1, 1);
    let end = ymd(2023, 1, 8);
    let mut it = AtomicClock::interval(
        Frame::Day,
        &start,
        &end,
        2,
        None,
        None,
        Bounds::StartInclude,
        false,
    )
    .unwrap();
    let mut starts: Vec<i64> = Vec::new();
    while let Some((f, _c)) = it.next() {
        starts.push(f.day());
    }
    assert_eq!(starts, vec![1, 3, 5, 7]);
}

#[test]
fn interval_rejects_zero() {
    let start = ymd(2023, 1, 1);
    let end = ymd(2023, 1, 3);
    assert_eq!(
        AtomicClock::interval(
            Frame::Day,
            &start,
            &end,
            0,
            None,
            None,
            Bounds::StartInclude,
            false
        )
        .unwrap_err(),
        ClockError::InvalidInterval
    );
}

#[test]
fn span_range_exact_clips_last_span() {
    let start = ymd(2023, 1, 1);
    let end = AtomicClock::new(2023, 1, 2, 12, 0, 0, 0, &utc()).unwrap();
    let mut it = AtomicClock::span_range(
        Frame::Day,
        &start,
        &end,
        None,
        None,
        Bounds::StartInclude,
        true,
    )
    .unwrap();
    let (f1, c1) = it.next().unwrap();
    assert_eq!(f1.day(), 1);
    assert_eq!((c1.day(), c1.hour()), (1, 23));
    // the trailing sliver is clipped to the end, one nanosecond inside
    let (f2, c2) = it.next().unwrap();
    assert_eq!((f2.day(), f2.hour()), (2, 0));
    assert_eq!((c2.day(), c2.hour(), c2.minute(), c2.second()), (2, 11, 59, 59));
    assert_eq!(c2.subsec_nanosecond(), 999_999_999);
    assert!(it.next().is_none());
}

#[test]
fn span_range_exact_skips_empty_tail() {
    // the end sits exactly on a frame start: no zero-width span is emitted
    let start = ymd(2023, 1, 1);
    let end = ymd(2023, 1, 3);
    let mut it = AtomicClock::span_range(
        Frame::Day,
        &start,
        &end,
        None,
        None,
        Bounds::BothInclude,
        true,
    )
    .unwrap();
    let mut n = 0;
    while let Some(_) = it.next() {
        n += 1;
    }
    assert_eq!(n, 2);
}
