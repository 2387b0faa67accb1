//! The library's laws: properties that relate several operations, stated
//! and proved over the same spec functions the operations' contracts use.

use vstd::prelude::*;
use crate::clock::{
    AtomicClock, add_months_ymd, fixed_delta_ns, lemma_divmod_exact, lemma_local_decompose,
    NS_PER_SEC, NS_PER_DAY,
};
use crate::calendar::{
    day_number, days_in_month, valid_ymd, year_of_day, month_of_day, dom_of_day,
    lemma_date_of_day_valid, lemma_day_number_inverse, lemma_day_number_in_year, TOTAL_DAYS,
};
use crate::span::{Frame, Bounds, span_outcome_at, floor_local_at};
use crate::delta::RelativeDelta;
use crate::ClockError;
use vstd::arithmetic::mul::lemma_mul_inequality;

verus! {

/// A span with both ends inclusive is exactly the both-exclusive span of the
/// same moment widened by one nanosecond at each end.
pub proof fn lemma_span_bounds_widen(
    ns: int,
    off: int,
    frame: Frame,
    count: int,
    exact: bool,
    week_start: int,
)
    ensures
        ({
            match span_outcome_at(ns, off, frame, count, Bounds::BothExclude, exact, week_start) {
                Ok(p) => span_outcome_at(
                    ns,
                    off,
                    frame,
                    count,
                    Bounds::BothInclude,
                    exact,
                    week_start,
                ) == Ok::<(int, int), ClockError>((p.0 - 1, p.1 + 1)),
                Err(_) => true,
            }
        }),
{
}

/// The shared setup of the per-frame enclosure proofs: the moment's local
/// decomposition and its reconstruction from the civil fields.
proof fn span_encloses_prelude(c: AtomicClock)
    requires
        c.wf(),
    ensures
        ({
            let l = c.local_ns();
            let n = l / (NS_PER_DAY as int);
            let tod = l % (NS_PER_DAY as int);
            &&& 0 <= n < TOTAL_DAYS as int
            &&& 0 <= tod < NS_PER_DAY as int
            &&& valid_ymd(year_of_day(n), month_of_day(n), dom_of_day(n))
            &&& day_number(year_of_day(n), month_of_day(n), dom_of_day(n)) == n
            &&& l == n * (NS_PER_DAY as int) + tod
            &&& crate::calendar::days_before_year(year_of_day(n)) <= n
                < crate::calendar::days_before_year(year_of_day(n) + 1)
        }),
{
    let l = c.local_ns();
    let nsd = NS_PER_DAY as int;
    lemma_local_decompose(l);
    let n = l / nsd;
    let y0 = year_of_day(n);
    let m0 = month_of_day(n);
    let d0 = dom_of_day(n);
    lemma_day_number_inverse(y0, m0, d0);
    lemma_day_number_in_year(y0, m0, d0);
    assert(l == day_number(y0, m0, d0) * nsd + l % nsd);
    assert(n * nsd == day_number(y0, m0, d0) * nsd);
}

/// Enclosure for the frames below a day, whose floor truncates the local
/// value below the frame's unit.
#[verifier::rlimit(100)]
proof fn lemma_span_encloses_subday(c: AtomicClock, frame: Frame)
    requires
        c.wf(),
        frame == Frame::Hour || frame == Frame::Minute || frame == Frame::Second,
    ensures
        ({
            match span_outcome_at(
                c.ns as int,
                c.zone.offset_seconds as int,
                frame,
                1,
                Bounds::StartInclude,
                false,
                1,
            ) {
                Ok(p) => p.0 <= c.ns as int && c.ns as int <= p.1,
                Err(_) => true,
            }
        }),
{
    let ns = c.ns as int;
    let off = c.zone.offset_seconds as int;
    let nsd = NS_PER_DAY as int;
    let nss = NS_PER_SEC as int;
    let l = c.local_ns();
    span_encloses_prelude(c);
    let n = l / nsd;
    let tod = l % nsd;
    let y0 = year_of_day(n);
    let m0 = month_of_day(n);
    match span_outcome_at(ns, off, frame, 1, Bounds::StartInclude, false, 1) {
        Ok(p) => {
            let fl = floor_local_at(ns, off, frame, 1);
            lemma_divmod_exact(y0 * 12 + (m0 - 1), 12, y0, m0 - 1);
            let unit = match frame {
                Frame::Hour => crate::clock::NS_PER_HOUR as int,
                Frame::Minute => crate::clock::NS_PER_MINUTE as int,
                _ => nss,
            };
            match frame {
                Frame::Hour => {
                    assert(nsd == (crate::clock::NS_PER_HOUR as int) * 24);
                    vstd::arithmetic::div_mod::lemma_mod_mod(
                        l,
                        crate::clock::NS_PER_HOUR as int,
                        24,
                    );
                },
                Frame::Minute => {
                    assert(nsd == (crate::clock::NS_PER_MINUTE as int) * 1440);
                    vstd::arithmetic::div_mod::lemma_mod_mod(
                        l,
                        crate::clock::NS_PER_MINUTE as int,
                        1440,
                    );
                },
                _ => {
                    assert(nsd == nss * 86400);
                    vstd::arithmetic::div_mod::lemma_mod_mod(l, nss, 86400);
                },
            }
            vstd::arithmetic::div_mod::lemma_mod_bound(l, unit);
            vstd::arithmetic::div_mod::lemma_mod_bound(tod, unit);
            assert(l % unit == tod % unit);
            assert(fl == n * nsd + (tod - tod % unit));
            lemma_divmod_exact(fl, nsd, n, tod - tod % unit);
        },
        Err(_) => {},
    }
}

/// Enclosure for the day and week frames, whose floor moves back to a day
/// start at most six days earlier.
#[verifier::rlimit(100)]
proof fn lemma_span_encloses_days(c: AtomicClock, frame: Frame)
    requires
        c.wf(),
        frame == Frame::Day || frame == Frame::Week,
    ensures
        ({
            match span_outcome_at(
                c.ns as int,
                c.zone.offset_seconds as int,
                frame,
                1,
                Bounds::StartInclude,
                false,
                1,
            ) {
                Ok(p) => p.0 <= c.ns as int && c.ns as int <= p.1,
                Err(_) => true,
            }
        }),
{
    let ns = c.ns as int;
    let off = c.zone.offset_seconds as int;
    let nsd = NS_PER_DAY as int;
    let l = c.local_ns();
    span_encloses_prelude(c);
    let n = l / nsd;
    let tod = l % nsd;
    let y0 = year_of_day(n);
    let m0 = month_of_day(n);
    match span_outcome_at(ns, off, frame, 1, Bounds::StartInclude, false, 1) {
        Ok(p) => {
            let fl = floor_local_at(ns, off, frame, 1);
            lemma_divmod_exact(y0 * 12 + (m0 - 1), 12, y0, m0 - 1);
            match frame {
                Frame::Day => {
                    lemma_divmod_exact(fl, nsd, n, 0);
                },
                Frame::Week => {
                    let isowd = crate::calendar::weekday_sun0(n);
                    vstd::arithmetic::div_mod::lemma_mod_bound(n + 6, 7);
                    let delta = if 1 > isowd {
                        1 - isowd - 7
                    } else {
                        1 - isowd
                    };
                    let fd = n + delta;
                    assert(fl == fd * nsd);
                    assert(0 <= fl);
                    assert(fd >= 0) by {
                        if fd < 0 {
                            lemma_mul_inequality(fd, -1, nsd);
                        }
                    }
                    assert(fd <= n);
                    assert(fd < TOTAL_DAYS as int);
                    lemma_date_of_day_valid(fd);
                    lemma_day_number_inverse(year_of_day(fd), month_of_day(fd), dom_of_day(fd));
                    lemma_divmod_exact(fl, nsd, fd, 0);
                    // the moment sits within seven days of its week's start
                    lemma_mul_inequality(fd, n, nsd);
                    lemma_mul_inequality(n + 1, fd + 7, nsd);
                },
                _ => {},
            }
        },
        Err(_) => {},
    }
}

/// Enclosure for the calendar frames, whose floor moves to the start of the
/// month, quarter or year and whose ceiling is the next such start.
#[verifier::rlimit(100)]
proof fn lemma_span_encloses_calendar(c: AtomicClock, frame: Frame)
    requires
        c.wf(),
        frame == Frame::Month || frame == Frame::Quarter || frame == Frame::Year,
    ensures
        ({
            match span_outcome_at(
                c.ns as int,
                c.zone.offset_seconds as int,
                frame,
                1,
                Bounds::StartInclude,
                false,
                1,
            ) {
                Ok(p) => p.0 <= c.ns as int && c.ns as int <= p.1,
                Err(_) => true,
            }
        }),
{
    let ns = c.ns as int;
    let off = c.zone.offset_seconds as int;
    let nsd = NS_PER_DAY as int;
    let l = c.local_ns();
    span_encloses_prelude(c);
    let n = l / nsd;
    let tod = l % nsd;
    let y0 = year_of_day(n);
    let m0 = month_of_day(n);
    let d0 = dom_of_day(n);
    match span_outcome_at(ns, off, frame, 1, Bounds::StartInclude, false, 1) {
        Ok(p) => {
            let fl = floor_local_at(ns, off, frame, 1);
            match frame {
                Frame::Month => {
                    assert(valid_ymd(y0, m0, 1));
                    let k = day_number(y0, m0, 1);
                    lemma_day_number_inverse(y0, m0, 1);
                    assert(fl == k * nsd);
                    lemma_divmod_exact(fl, nsd, k, 0);
                    if m0 < 12 {
                        lemma_divmod_exact(y0 * 12 + m0, 12, y0, m0);
                        assert(day_number(y0, m0 + 1, 1) == k + days_in_month(y0, m0));
                        lemma_mul_inequality(n + 1, day_number(y0, m0 + 1, 1), nsd);
                    } else {
                        lemma_divmod_exact(y0 * 12 + 12, 12, y0 + 1, 0);
                        assert(day_number(y0 + 1, 1, 1) == crate::calendar::days_before_year(
                            y0 + 1,
                        ));
                        lemma_mul_inequality(n + 1, day_number(y0 + 1, 1, 1), nsd);
                    }
                    lemma_mul_inequality(k, n, nsd);
                },
                Frame::Quarter => {
                    vstd::arithmetic::div_mod::lemma_mod_bound(m0 - 1, 3);
                    let qm = m0 - (m0 - 1) % 3;
                    assert(1 <= qm <= m0);
                    assert(valid_ymd(y0, qm, 1));
                    let k = day_number(y0, qm, 1);
                    lemma_day_number_inverse(y0, qm, 1);
                    assert(fl == k * nsd);
                    lemma_divmod_exact(fl, nsd, k, 0);
                    crate::calendar::lemma_dbm_monotonic(y0, qm, m0);
                    lemma_mul_inequality(k, n, nsd);
                    if qm <= 9 {
                        assert(m0 < 12);
                        lemma_divmod_exact(y0 * 12 + (qm - 1) + 3, 12, y0, qm + 2);
                        assert(day_number(y0, m0 + 1, 1) == day_number(y0, m0, 1) + days_in_month(
                            y0,
                            m0,
                        ));
                        crate::calendar::lemma_dbm_monotonic(y0, m0 + 1, qm + 3);
                        lemma_mul_inequality(n + 1, day_number(y0, qm + 3, 1), nsd);
                    } else {
                        assert(qm == 10);
                        lemma_divmod_exact(y0 * 12 + (qm - 1) + 3, 12, y0 + 1, 0);
                        lemma_mul_inequality(n + 1, day_number(y0 + 1, 1, 1), nsd);
                    }
                },
                Frame::Year => {
                    assert(valid_ymd(y0, 1, 1));
                    let k = day_number(y0, 1, 1);
                    lemma_day_number_inverse(y0, 1, 1);
                    assert(fl == k * nsd);
                    lemma_divmod_exact(fl, nsd, k, 0);
                    lemma_divmod_exact(y0 * 12 + 12, 12, y0 + 1, 0);
                    lemma_mul_inequality(k, n, nsd);
                    lemma_mul_inequality(n + 1, day_number(y0 + 1, 1, 1), nsd);
                },
                _ => {},
            }
        },
        Err(_) => {},
    }
}

/// The start-inclusive span encloses the moment it was taken of: the floor
/// is never after it and the ceiling never before it, for every frame and
/// every moment whose span is defined.
pub proof fn lemma_span_encloses(c: AtomicClock, frame: Frame)
    requires
        c.wf(),
    ensures
        ({
            match span_outcome_at(
                c.ns as int,
                c.zone.offset_seconds as int,
                frame,
                1,
                Bounds::StartInclude,
                false,
                1,
            ) {
                Ok(p) => p.0 <= c.ns as int && c.ns as int <= p.1,
                Err(_) => true,
            }
        }),
{
    match frame {
        Frame::Hour | Frame::Minute | Frame::Second => {
            lemma_span_encloses_subday(c, frame);
        },
        Frame::Day | Frame::Week => {
            lemma_span_encloses_days(c, frame);
        },
        Frame::Month | Frame::Quarter | Frame::Year => {
            lemma_span_encloses_calendar(c, frame);
        },
        Frame::Microsecond => {},
    }
}

/// The total month step of a delta.
pub open spec fn months_of(d: RelativeDelta) -> int {
    d.years * 12 + d.quarters * 3 + d.months
}

/// The fixed-duration part of a delta, in nanoseconds.
pub open spec fn fixed_of(d: RelativeDelta) -> int {
    fixed_delta_ns(
        d.days as int,
        d.hours as int,
        d.minutes as int,
        d.seconds as int,
        d.nanoseconds as int,
        d.weeks as int,
    )
}

/// The delta with every numeric field negated.
pub open spec fn negated(d: RelativeDelta) -> RelativeDelta {
    RelativeDelta {
        years: (-d.years) as i64,
        months: (-d.months) as i64,
        days: (-d.days) as i64,
        hours: (-d.hours) as i64,
        minutes: (-d.minutes) as i64,
        seconds: (-d.seconds) as i64,
        nanoseconds: (-d.nanoseconds) as i64,
        weeks: (-d.weeks) as i64,
        quarters: (-d.quarters) as i64,
        weekday: d.weekday,
    }
}

/// No numeric field sits at the far end of its type, so negation is exact.
pub open spec fn negatable(d: RelativeDelta) -> bool {
    &&& d.years > i64::MIN
    &&& d.months > i64::MIN
    &&& d.days > i64::MIN
    &&& d.hours > i64::MIN
    &&& d.minutes > i64::MIN
    &&& d.seconds > i64::MIN
    &&& d.nanoseconds > i64::MIN
    &&& d.weeks > i64::MIN
    &&& d.quarters > i64::MIN
}

/// Shifting and then shifting by the negated delta recovers the original
/// instant exactly, for every delta without a target weekday whose calendar
/// and fixed parts are not mixed and whose calendar step does not clamp the
/// day of month. (A target weekday is not undone by negation; a clamped step
/// such as the one off the 31st into a shorter month loses the day; and a
/// mixed delta re-applies its month step from a day the fixed part moved.)
pub proof fn lemma_shift_roundtrip(c: AtomicClock, d: RelativeDelta)
    requires
        c.wf(),
        d.weekday is None,
        negatable(d),
        months_of(d) == 0 || (fixed_of(d) == 0 && c.day_spec() <= days_in_month(
            add_months_ymd(c.year_spec(), c.month_spec(), c.day_spec(), months_of(d)).0,
            add_months_ymd(c.year_spec(), c.month_spec(), c.day_spec(), months_of(d)).1,
        )),
    ensures
        ({
            match c.shift_delta_outcome(d) {
                Ok(v) => AtomicClock {
                    ns: v as i128,
                    zone: c.zone,
                }.shift_delta_outcome(negated(d)) == Ok::<int, ClockError>(c.ns as int),
                Err(_) => true,
            }
        }),
{
    let off = c.zone.offset_seconds as int;
    let l = c.local_ns();
    let nsd = NS_PER_DAY as int;
    lemma_local_decompose(l);
    let n = l / nsd;
    let tod = l % nsd;
    let y0 = year_of_day(n);
    let m0 = month_of_day(n);
    let d0 = dom_of_day(n);
    let mt = months_of(d);
    let fx = fixed_of(d);
    lemma_day_number_inverse(y0, m0, d0);
    assert(l == day_number(y0, m0, d0) * nsd + tod);
    let idx = y0 * 12 + (m0 - 1) + mt;
    lemma_divmod_exact(y0 * 12 + (m0 - 1), 12, y0, m0 - 1);
    match c.shift_delta_outcome(d) {
        Ok(v) => {
            let ny = idx / 12;
            let nm = idx % 12 + 1;
            vstd::arithmetic::div_mod::lemma_mod_bound(idx, 12);
            let nd = if d0 <= days_in_month(ny, nm) {
                d0
            } else {
                days_in_month(ny, nm)
            };
            assert(v == day_number(ny, nm, nd) * nsd + tod - off * (NS_PER_SEC as int) + fx);
            let c2 = AtomicClock { ns: v as i128, zone: c.zone };
            let l2 = c2.local_ns();
            if mt == 0 {
                // a pure fixed-duration delta: the month step is the
                // identity in both directions
                assert(ny == y0 && nm == m0 && nd == d0);
                assert(l2 == l + fx);
                assert(fixed_of(negated(d)) == -fx);
                assert(months_of(negated(d)) == 0);
                lemma_local_decompose(l2);
                let n2 = l2 / nsd;
                let tod2 = l2 % nsd;
                let y2 = year_of_day(n2);
                let m2 = month_of_day(n2);
                let d2 = dom_of_day(n2);
                lemma_day_number_inverse(y2, m2, d2);
                let idx2 = y2 * 12 + (m2 - 1);
                lemma_divmod_exact(idx2, 12, y2, m2 - 1);
                assert(l2 == day_number(y2, m2, d2) * nsd + tod2);
                assert(c2.shift_delta_outcome(negated(d)) == Ok::<int, ClockError>(c.ns as int));
            } else {
                // a pure calendar delta that does not clamp: the reverse
                // month step lands back on the original date
                assert(fx == 0);
                assert(nd == d0);
                assert(valid_ymd(ny, nm, nd)) by {
                    vstd::arithmetic::div_mod::lemma_mod_bound(idx, 12);
                }
                lemma_day_number_inverse(ny, nm, d0);
                lemma_day_number_in_year(ny, nm, d0);
                assert(l2 == day_number(ny, nm, d0) * nsd + tod);
                assert(0 <= tod < nsd);
                lemma_divmod_exact(l2, nsd, day_number(ny, nm, d0), tod);
                assert(months_of(negated(d)) == -mt);
                assert(fixed_of(negated(d)) == 0);
                let idx2 = ny * 12 + (nm - 1) + (-mt);
                assert(idx2 == y0 * 12 + (m0 - 1)) by {
                    assert(idx == 12 * ny + (nm - 1)) by {
                        vstd::arithmetic::div_mod::lemma_fundamental_div_mod(idx, 12);
                    }
                }
                lemma_divmod_exact(idx2, 12, y0, m0 - 1);
                assert(d0 <= days_in_month(y0, m0));
                assert(c2.shift_delta_outcome(negated(d)) == Ok::<int, ClockError>(c.ns as int));
            }
        },
        Err(_) => {},
    }
}

} // verus!
