use atomic_clock::clock::AtomicClock;
use atomic_clock::delta::RelativeDelta;
use atomic_clock::span::{Bounds, Frame};
use atomic_clock::tz::Tz;
use atomic_clock::ClockError;

fn utc() -> Tz {
    Tz::utc()
}

fn ymd(y: i64, m: i64, d: i64) -> AtomicClock {
    AtomicClock::new(y, m, d, 0, 0, 0, 0, &utc()).unwrap()
}

#[test]
fn shift_clamps_end_of_month() {
    // January 31st plus one month lands on the last day of February
    let c = ymd(2023, 1, 31);
    let s = c.shift(0, 1, 0, 0, 0, 0, 0, 0, 0, None).unwrap();
    assert_eq!(s.year(), 2023);
    assert_eq!(s.month(), 2);
    assert_eq!(s.day(), 28);
    let leap = ymd(2024, 1, 31).shift(0, 1, 0, 0, 0, 0, 0, 0, 0, None).unwrap();
    assert_eq!(leap.day(), 29);
}

#[test]
fn shift_months_across_years() {
    let c = ymd(2023, 11, 15);
    let s = c.shift(0, 3, 0, 0, 0, 0, 0, 0, 0, None).unwrap();
    assert_eq!((s.year(), s.month(), s.day()), (2024, 2, 15));
    let back = c.shift(0, -23, 0, 0, 0, 0, 0, 0, 0, None).unwrap();
    assert_eq!((back.year(), back.month(), back.day()), (2021, 12, 15));
}

#[test]
fn shift_quarters_and_weeks() {
    let c = ymd(2023, 1, 10);
    let q = c.shift(0, 0, 0, 0, 0, 0, 0, 0, 2, None).unwrap();
    assert_eq!((q.year(), q.month(), q.day()), (2023, 7, 10));
    let w = c.shift(0, 0, 0, 0, 0, 0, 0, 2, 0, None).unwrap();
    assert_eq!((w.year(), w.month(), w.day()), (2023, 1, 24));
}

#[test]
fn shift_fixed_units() {
    let c = AtomicClock::new(2023, 1, 1, 0, 0, 0, 0, &utc()).unwrap();
    let s = c.shift(0, 0, 1, 2, 3, 4, 5, 0, 0, None).unwrap();
    assert_eq!(s.day(), 2);
    assert_eq!(s.hour(), 2);
    assert_eq!(s.minute(), 3);
    assert_eq!(s.second(), 4);
    assert_eq!(s.microsecond(), 5);
}

#[test]
fn shift_weekday_rolls_forward_only() {
    // 2023-01-31 is a Tuesday (Monday = 0 gives 1)
    let c = ymd(2023, 1, 31);
    assert_eq!(c.weekday(), 1);
    // to Friday (4): forward three days
    let f = c.shift(0, 0, 0, 0, 0, 0, 0, 0, 0, Some(4)).unwrap();
    assert_eq!((f.month(), f.day()), (2, 3));
    // to Tuesday (1): already there, stays put
    let t = c.shift(0, 0, 0, 0, 0, 0, 0, 0, 0, Some(1)).unwrap();
    assert_eq!((t.month(), t.day()), (1, 31));
    // to Monday (0): six days forward, never backward
    let m = c.shift(0, 0, 0, 0, 0, 0, 0, 0, 0, Some(0)).unwrap();
    assert_eq!((m.month(), m.day()), (2, 6));
    assert_eq!(
        c.shift(0, 0, 0, 0, 0, 0, 0, 0, 0, Some(7)).unwrap_err(),
        ClockError::InvalidWeekday
    );
}

#[test]
fn shift_delta_round_trip() {
    // a pure fixed-duration delta undoes itself exactly
    let c = AtomicClock::new(2023, 5, 6, 12, 30, 45, 123456, &utc()).unwrap();
    let d = RelativeDelta::new(0, 0, 3, 5, 7, 9, 11, 1, 0, None).unwrap();
    let there = c.shift_delta(&d).unwrap();
    let back = there.sub_delta(&d).unwrap();
    assert!(c.eq_instant(&back));
    // a pure calendar delta from a day below 29 undoes itself exactly
    let d2 = RelativeDelta::new(1, 5, 0, 0, 0, 0, 0, 0, 1, None).unwrap();
    let there2 = c.shift_delta(&d2).unwrap();
    let back2 = there2.sub_delta(&d2).unwrap();
    assert!(c.eq_instant(&back2));
}

#[test]
fn delta_negate_keeps_weekday() {
    let d = RelativeDelta::new(1, -2, 3, 0, 0, 0, 0, 0, 0, Some(3)).unwrap();
    let n = d.negate();
    assert_eq!(n.years, -1);
    assert_eq!(n.months, 2);
    assert_eq!(n.days, -3);
    assert_eq!(n.weekday, Some(3));
    assert_eq!(
        RelativeDelta::new(0, 0, 0, 0, 0, 0, 0, 0, 0, Some(9)).unwrap_err(),
        ClockError::InvalidWeekday
    );
}

#[test]
fn span_month_start_inclusive() {
    // the month span of 2023-02-15 runs to the last nanosecond of February
    let c = ymd(2023, 2, 15);
    let (floor, ceil) = c.span(Frame::Month, 1, Bounds::StartInclude, false, 1).unwrap();
    assert_eq!((floor.year(), floor.month(), floor.day()), (2023, 2, 1));
    assert_eq!((floor.hour(), floor.minute(), floor.second()), (0, 0, 0));
    assert_eq!((ceil.year(), ceil.month(), ceil.day()), (2023, 2, 28));
    assert_eq!((ceil.hour(), ceil.minute(), ceil.second()), (23, 59, 59));
    assert_eq!(ceil.subsec_nanosecond(), 999_999_999);
}

#[test]
fn span_bounds_widen_by_one_nanosecond() {
    let c = AtomicClock::new(2023, 2, 15, 10, 0, 0, 0, &utc()).unwrap();
    let (fi, ci) = c.span(Frame::Day, 1, Bounds::BothInclude, false, 1).unwrap();
    let (fe, ce) = c.span(Frame::Day, 1, Bounds::BothExclude, false, 1).unwrap();
    assert_eq!(fe.sub_moment(&fi), 1);
    assert_eq!(ci.sub_moment(&ce), 1);
    let (fs, cs) = c.span(Frame::Day, 1, Bounds::StartInclude, false, 1).unwrap();
    assert!(fs.eq_instant(&fi));
    assert!(cs.eq_instant(&ce));
}

#[test]
fn span_floor_ceil_enclose() {
    let c = AtomicClock::new(2023, 5, 6, 12, 30, 45, 123456, &utc()).unwrap();
    for frame in [
        Frame::Year,
        Frame::Quarter,
        Frame::Month,
        Frame::Week,
        Frame::Day,
        Frame::Hour,
        Frame::Minute,
        Frame::Second,
    ] {
        let f = c.floor(frame).unwrap();
        let l = c.ceil(frame).unwrap();
        assert!(f.le(&c), "floor after moment for {:?}", frame);
        assert!(c.le(&l), "ceil before moment for {:?}", frame);
    }
}

#[test]
fn span_week_floor() {
    // 2023-05-06 is a Saturday; the ISO week starts Monday 2023-05-01
    let c = ymd(2023, 5, 6);
    let (floor, ceil) = c.span(Frame::Week, 1, Bounds::StartInclude, false, 1).unwrap();
    assert_eq!((floor.month(), floor.day()), (5, 1));
    assert_eq!((ceil.month(), ceil.day()), (5, 7));
    // week_start 7 floors to the preceding Sunday
    let (floor7, _) = c.span(Frame::Week, 1, Bounds::StartInclude, false, 7).unwrap();
    assert_eq!((floor7.month(), floor7.day()), (4, 30));
    assert_eq!(
        c.span(Frame::Week, 1, Bounds::StartInclude, false, 8).unwrap_err(),
        ClockError::InvalidWeekStart
    );
}

#[test]
fn span_quarter_floor() {
    let c = ymd(2023, 5, 6);
    let (floor, ceil) = c.span(Frame::Quarter, 1, Bounds::StartInclude, false, 1).unwrap();
    assert_eq!((floor.month(), floor.day()), (4, 1));
    assert_eq!((ceil.month(), ceil.day()), (6, 30));
}

#[test]
fn span_rejects_microsecond_frame() {
    let c = ymd(2023, 5, 6);
    assert_eq!(
        c.span(Frame::Microsecond, 1, Bounds::StartInclude, false, 1).unwrap_err(),
        ClockError::UnsupportedFrame
    );
}

#[test]
fn span_exact_keeps_start() {
    let c = AtomicClock::new(2023, 5, 6, 12, 30, 0, 0, &utc()).unwrap();
    let (floor, ceil) = c.span(Frame::Day, 1, Bounds::BothInclude, true, 1).unwrap();
    assert!(floor.eq_instant(&c));
    let next = c.shift(0, 0, 1, 0, 0, 0, 0, 0, 0, None).unwrap();
    assert!(ceil.eq_instant(&next));
}

#[test]
fn is_between_bound_policies() {
    let a = ymd(2023, 1, 1);
    let b = ymd(2023, 1, 3);
    let mid = ymd(2023, 1, 2);
    // strictly inside is between under every policy
    assert!(mid.is_between(&a, &b, Bounds::BothExclude));
    assert!(mid.is_between(&a, &b, Bounds::BothInclude));
    // the endpoints only count where their edge is inclusive
    assert!(!a.is_between(&a, &b, Bounds::BothExclude));
    assert!(!b.is_between(&a, &b, Bounds::BothExclude));
    assert!(a.is_between(&a, &b, Bounds::BothInclude));
    assert!(a.is_between(&a, &b, Bounds::StartInclude));
    assert!(!a.is_between(&a, &b, Bounds::EndInclude));
    assert!(b.is_between(&a, &b, Bounds::EndInclude));
    assert!(!b.is_between(&a, &b, Bounds::StartInclude));
}

#[test]
fn frame_and_bounds_from_text() {
    assert_eq!(Frame::extract("day").unwrap(), Frame::Day);
    assert_eq!(Frame::extract("quarter").unwrap(), Frame::Quarter);
    assert_eq!(
        Frame::extract("fortnight").unwrap_err(),
        ClockError::ParseFailure
    );
    assert_eq!(Bounds::extract("[]").unwrap(), Bounds::BothInclude);
    assert_eq!(Bounds::extract("()").unwrap(), Bounds::BothExclude);
    assert_eq!(Bounds::extract("[)").unwrap(), Bounds::StartInclude);
    assert_eq!(Bounds::extract("(]").unwrap(), Bounds::EndInclude);
    assert_eq!(Bounds::extract("][").unwrap_err(), ClockError::ParseFailure);
}

#[test]
fn shift_negative_months_cross_year() {
    let c = ymd(2023, 1, 15);
    let s = c.shift(0, -1, 0, 0, 0, 0, 0, 0, 0, None).unwrap();
    assert_eq!((s.year(), s.month(), s.day()), (2022, 12, 15));
    let s2 = c.shift(-1, -1, 0, 0, 0, 0, 0, 0, 0, None).unwrap();
    assert_eq!((s2.year(), s2.month(), s2.day()), (2021, 12, 15));
}

#[test]
fn shift_off_calendar_is_rejected() {
    let c = ymd(9999, 12, 31);
    assert_eq!(
        c.shift(0, 1, 0, 0, 0, 0, 0, 0, 0, None).unwrap_err(),
        ClockError::InvalidDateTime
    );
    assert_eq!(
        c.shift(0, 0, 1, 0, 0, 0, 0, 0, 0, None).unwrap_err(),
        ClockError::InvalidDateTime
    );
    let first = AtomicClock::strptime("0000-01-01", "%Y-%m-%d", None).unwrap();
    assert_eq!(
        first.shift(0, 0, -1, 0, 0, 0, 0, 0, 0, None).unwrap_err(),
        ClockError::InvalidDateTime
    );
}

#[test]
fn span_with_count_spans_many_frames() {
    let c = ymd(2023, 1, 15);
    let (floor, ceil) = c.span(Frame::Month, 3, Bounds::BothInclude, false, 1).unwrap();
    assert_eq!((floor.month(), floor.day()), (1, 1));
    assert_eq!((ceil.month(), ceil.day()), (4, 1));
}
