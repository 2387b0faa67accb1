//! Frames, bound policies, and the span/floor/ceil engine.
//!
//! A span snaps a moment to the enclosing interval of a calendar frame:
//! the floor resets every field below the frame's granularity to its
//! minimum, the ceiling is the floor stepped forward by the frame, and the
//! bound policy nudges each open end by one nanosecond.

use vstd::prelude::*;
use crate::clock::{
    AtomicClock, same_zone, in_local_range, lemma_local_decompose, shift_outcome_at, NS_PER_SEC,
    NS_PER_MINUTE, NS_PER_HOUR, NS_PER_DAY, MAX_LOCAL_NS,
};
use crate::calendar::{day_number, day_number_exec, date_of_day, weekday_sun0, weekday_sun0_exec,
    year_of_day, month_of_day, TOTAL_DAYS};
use crate::tz::str_eq;
use crate::ClockError;

verus! {

/// A calendar granularity used for flooring, ceiling and stepping.
#[derive(Clone, Copy, Debug, PartialEq, Eq, Structural)]
pub enum Frame {
    Year,
    Month,
    Day,
    Hour,
    Minute,
    Second,
    Microsecond,
    Week,
    Quarter,
}

/// Which edges of an interval are inclusive.
#[derive(Clone, Copy, Debug, PartialEq, Eq, Structural)]
pub enum Bounds {
    BothInclude,
    BothExclude,
    StartInclude,
    EndInclude,
}

impl Frame {
    /// The frame named by the given text.
    pub fn extract(s: &str) -> (r: Result<Frame, ClockError>)
        ensures
            r == (if s@ == "year"@ {
                Ok::<Frame, ClockError>(Frame::Year)
            } else if s@ == "month"@ {
                Ok::<Frame, ClockError>(Frame::Month)
            } else if s@ == "day"@ {
                Ok::<Frame, ClockError>(Frame::Day)
            } else if s@ == "hour"@ {
                Ok::<Frame, ClockError>(Frame::Hour)
            } else if s@ == "minute"@ {
                Ok::<Frame, ClockError>(Frame::Minute)
            } else if s@ == "second"@ {
                Ok::<Frame, ClockError>(Frame::Second)
            } else if s@ == "microsecond"@ {
                Ok::<Frame, ClockError>(Frame::Microsecond)
            } else if s@ == "week"@ {
                Ok::<Frame, ClockError>(Frame::Week)
            } else if s@ == "quarter"@ {
                Ok::<Frame, ClockError>(Frame::Quarter)
            } else {
                Err::<Frame, ClockError>(ClockError::ParseFailure)
            }),
    {
        if str_eq(s, "year") {
            Ok(Frame::Year)
        } else if str_eq(s, "month") {
            Ok(Frame::Month)
        } else if str_eq(s, "day") {
            Ok(Frame::Day)
        } else if str_eq(s, "hour") {
            Ok(Frame::Hour)
        } else if str_eq(s, "minute") {
            Ok(Frame::Minute)
        } else if str_eq(s, "second") {
            Ok(Frame::Second)
        } else if str_eq(s, "microsecond") {
            Ok(Frame::Microsecond)
        } else if str_eq(s, "week") {
            Ok(Frame::Week)
        } else if str_eq(s, "quarter") {
            Ok(Frame::Quarter)
        } else {
            Err(ClockError::ParseFailure)
        }
    }
}

impl Bounds {
    /// The bound policy written in interval notation: `"[]"`, `"()"`,
    /// `"[)"` or `"(]"`.
    pub fn extract(s: &str) -> (r: Result<Bounds, ClockError>)
        ensures
            r == (if s@ == "[]"@ {
                Ok::<Bounds, ClockError>(Bounds::BothInclude)
            } else if s@ == "()"@ {
                Ok::<Bounds, ClockError>(Bounds::BothExclude)
            } else if s@ == "[)"@ {
                Ok::<Bounds, ClockError>(Bounds::StartInclude)
            } else if s@ == "(]"@ {
                Ok::<Bounds, ClockError>(Bounds::EndInclude)
            } else {
                Err::<Bounds, ClockError>(ClockError::ParseFailure)
            }),
    {
        if str_eq(s, "[]") {
            Ok(Bounds::BothInclude)
        } else if str_eq(s, "()") {
            Ok(Bounds::BothExclude)
        } else if str_eq(s, "[)") {
            Ok(Bounds::StartInclude)
        } else if str_eq(s, "(]") {
            Ok(Bounds::EndInclude)
        } else {
            Err(ClockError::ParseFailure)
        }
    }

    /// Whether an instant lies between two others under this policy.
    pub open spec fn between_spec(&self, x: int, start: int, end: int) -> bool {
        match self {
            Bounds::BothInclude => start <= x && x <= end,
            Bounds::BothExclude => start < x && x < end,
            Bounds::StartInclude => start <= x && x < end,
            Bounds::EndInclude => start < x && x <= end,
        }
    }
}

impl AtomicClock {
    /// Whether this moment lies between `start` and `end`, comparing
    /// instants alone, with the policy deciding each edge.
    pub fn is_between(&self, start: &AtomicClock, end: &AtomicClock, bounds: Bounds) -> (r: bool)
        ensures
            r == bounds.between_spec(self.ns as int, start.ns as int, end.ns as int),
    {
        match bounds {
            Bounds::BothInclude => start.ns <= self.ns && self.ns <= end.ns,
            Bounds::BothExclude => start.ns < self.ns && self.ns < end.ns,
            Bounds::StartInclude => start.ns <= self.ns && self.ns < end.ns,
            Bounds::EndInclude => start.ns < self.ns && self.ns <= end.ns,
        }
    }
}

/// The local nanosecond value of the frame floor of the instant `ns` under
/// offset `off`: every field below the frame's granularity reset to its
/// minimum.
pub open spec fn floor_local_at(ns: int, off: int, frame: Frame, week_start: int) -> int {
    let l = ns + off * (NS_PER_SEC as int);
    let n = l / (NS_PER_DAY as int);
    match frame {
        Frame::Year => day_number(year_of_day(n), 1, 1) * (NS_PER_DAY as int),
        Frame::Quarter => day_number(
            year_of_day(n),
            month_of_day(n) - (month_of_day(n) - 1) % 3,
            1,
        ) * (NS_PER_DAY as int),
        Frame::Month => day_number(year_of_day(n), month_of_day(n), 1) * (NS_PER_DAY as int),
        Frame::Week => {
            let isowd = weekday_sun0(n);
            let delta = if week_start > isowd {
                week_start - isowd - 7
            } else {
                week_start - isowd
            };
            (n + delta) * (NS_PER_DAY as int)
        },
        Frame::Day => n * (NS_PER_DAY as int),
        Frame::Hour => l - l % (NS_PER_HOUR as int),
        Frame::Minute => l - l % (NS_PER_MINUTE as int),
        Frame::Second => l - l % (NS_PER_SEC as int),
        Frame::Microsecond => l,
    }
}

/// Stepping the floor forward by `count` frames is a shift by `count` of the
/// frame's canonical unit.
pub open spec fn ceil_outcome_at(fns: int, off: int, frame: Frame, count: int) -> Result<
    int,
    ClockError,
> {
    match frame {
        Frame::Year => shift_outcome_at(fns, off, count, 0, 0, 0, 0, 0, 0, 0, 0, None),
        Frame::Quarter => shift_outcome_at(fns, off, 0, 0, 0, 0, 0, 0, 0, 0, count, None),
        Frame::Month => shift_outcome_at(fns, off, 0, count, 0, 0, 0, 0, 0, 0, 0, None),
        Frame::Week => shift_outcome_at(fns, off, 0, 0, 0, 0, 0, 0, 0, count, 0, None),
        Frame::Day => shift_outcome_at(fns, off, 0, 0, count, 0, 0, 0, 0, 0, 0, None),
        Frame::Hour => shift_outcome_at(fns, off, 0, 0, 0, count, 0, 0, 0, 0, 0, None),
        Frame::Minute => shift_outcome_at(fns, off, 0, 0, 0, 0, count, 0, 0, 0, 0, None),
        Frame::Second => shift_outcome_at(fns, off, 0, 0, 0, 0, 0, count, 0, 0, 0, None),
        Frame::Microsecond => shift_outcome_at(
            fns,
            off,
            0,
            0,
            0,
            0,
            0,
            0,
            count * 1000,
            0,
            0,
            None,
        ),
    }
}

/// What `span` returns for the instant `ns` under offset `off`: the pair of
/// instants, or the error.
pub open spec fn span_outcome_at(
    ns: int,
    off: int,
    frame: Frame,
    count: int,
    bounds: Bounds,
    exact: bool,
    week_start: int,
) -> Result<(int, int), ClockError> {
    if !(1 <= week_start <= 7) {
        Err(ClockError::InvalidWeekStart)
    } else if frame == Frame::Microsecond {
        Err(ClockError::UnsupportedFrame)
    } else {
        let fl = if exact {
            ns + off * (NS_PER_SEC as int)
        } else {
            floor_local_at(ns, off, frame, week_start)
        };
        let fns = fl - off * (NS_PER_SEC as int);
        if !in_local_range(fns, off) {
            Err(ClockError::InvalidDateTime)
        } else {
            match ceil_outcome_at(fns, off, frame, count) {
                Err(e) => Err(e),
                Ok(cns) => {
                    let fadj = match bounds {
                        Bounds::BothExclude | Bounds::EndInclude => fns + 1,
                        _ => fns,
                    };
                    let cadj = match bounds {
                        Bounds::BothExclude | Bounds::StartInclude => cns - 1,
                        _ => cns,
                    };
                    if !in_local_range(fadj, off) {
                        Err(ClockError::InvalidDateTime)
                    } else if !in_local_range(cadj, off) {
                        Err(ClockError::InvalidDateTime)
                    } else {
                        Ok((fadj, cadj))
                    }
                },
            }
        }
    }
}

impl AtomicClock {
    /// The enclosing `(floor, ceil)` interval of the moment for the given
    /// frame: the floor resets the fields below the frame (or is the moment
    /// itself when `exact`), the ceiling steps it by `count` frames, and the
    /// bound policy moves each open end one nanosecond inward.
    #[verifier::rlimit(100)]
    pub fn span(
        &self,
        frame: Frame,
        count: i64,
        bounds: Bounds,
        exact: bool,
        week_start: i64,
    ) -> (r: Result<(AtomicClock, AtomicClock), ClockError>)
        requires
            self.wf(),
        ensures
            ({
                match span_outcome_at(
                    self.ns as int,
                    self.zone.offset_seconds as int,
                    frame,
                    count as int,
                    bounds,
                    exact,
                    week_start as int,
                ) {
                    Ok(p) => {
                        &&& r matches Ok(q)
                        &&& q.0.ns == p.0
                        &&& q.1.ns == p.1
                        &&& q.0.wf() && q.1.wf()
                        &&& same_zone(q.0.zone, self.zone) && same_zone(q.1.zone, self.zone)
                    },
                    Err(e) => r == Err::<(AtomicClock, AtomicClock), ClockError>(e),
                }
            }),
    {
        if week_start < 1 || week_start > 7 {
            return Err(ClockError::InvalidWeekStart);
        }
        if frame == Frame::Microsecond {
            return Err(ClockError::UnsupportedFrame);
        }
        proof {
            lemma_local_decompose(self.local_ns());
        }
        let (n, tod) = self.local_day_tod();
        let l: i128 = self.ns + (self.zone.offset_seconds as i128) * (NS_PER_SEC as i128);
        let fl: i128 = if exact {
            l
        } else {
            match frame {
                Frame::Year => {
                    let (y, _m, _d) = date_of_day(n);
                    (day_number_exec(y, 1, 1) as i128) * (NS_PER_DAY as i128)
                },
                Frame::Quarter => {
                    let (y, m, _d) = date_of_day(n);
                    let qm = m - (m - 1) % 3;
                    (day_number_exec(y, qm, 1) as i128) * (NS_PER_DAY as i128)
                },
                Frame::Month => {
                    let (y, m, _d) = date_of_day(n);
                    (day_number_exec(y, m, 1) as i128) * (NS_PER_DAY as i128)
                },
                Frame::Week => {
                    let isowd = weekday_sun0_exec(n);
                    let delta: i64 = if week_start > isowd {
                        week_start - isowd - 7
                    } else {
                        week_start - isowd
                    };
                    ((n + delta) as i128) * (NS_PER_DAY as i128)
                },
                Frame::Day => (n as i128) * (NS_PER_DAY as i128),
                Frame::Hour => l - l % (NS_PER_HOUR as i128),
                Frame::Minute => l - l % (NS_PER_MINUTE as i128),
                Frame::Second => l - l % (NS_PER_SEC as i128),
                Frame::Microsecond => l,
            }
        };
        proof {
            assert(-7 * (NS_PER_DAY as int) <= (n as int - 7) * (NS_PER_DAY as int) && (
            n as int) * (NS_PER_DAY as int) <= (TOTAL_DAYS - 1) * (NS_PER_DAY as int))
                by (nonlinear_arith)
                requires
                    0 <= n as int <= TOTAL_DAYS - 1,
            ;
        }
        let fns: i128 = fl - (self.zone.offset_seconds as i128) * (NS_PER_SEC as i128);
        if fl < 0 || fl >= MAX_LOCAL_NS {
            return Err(ClockError::InvalidDateTime);
        }
        let f = AtomicClock { ns: fns, zone: self.zone.clone_tz() };
        let ceil_r = match frame {
            Frame::Year => f.shift(count, 0, 0, 0, 0, 0, 0, 0, 0, None),
            Frame::Quarter => f.shift(0, 0, 0, 0, 0, 0, 0, 0, count, None),
            Frame::Month => f.shift(0, count, 0, 0, 0, 0, 0, 0, 0, None),
            Frame::Week => f.shift(0, 0, 0, 0, 0, 0, 0, count, 0, None),
            Frame::Day => f.shift(0, 0, count, 0, 0, 0, 0, 0, 0, None),
            Frame::Hour => f.shift(0, 0, 0, count, 0, 0, 0, 0, 0, None),
            Frame::Minute => f.shift(0, 0, 0, 0, count, 0, 0, 0, 0, None),
            Frame::Second => f.shift(0, 0, 0, 0, 0, count, 0, 0, 0, None),
            Frame::Microsecond => f.shift(0, 0, 0, 0, 0, 0, count, 0, 0, None),
        };
        let ceil = match ceil_r {
            Ok(cm) => cm,
            Err(e) => {
                return Err(e);
            },
        };
        let (fadj, floor2) = match bounds {
            Bounds::BothExclude | Bounds::EndInclude => (
                true,
                AtomicClock { ns: f.ns + 1, zone: f.zone },
            ),
            _ => (false, f),
        };
        if fadj && (floor2.ns + (self.zone.offset_seconds as i128) * (NS_PER_SEC as i128)
            >= MAX_LOCAL_NS) {
            return Err(ClockError::InvalidDateTime);
        }
        let (cadj, ceil2) = match bounds {
            Bounds::BothExclude | Bounds::StartInclude => (
                true,
                AtomicClock { ns: ceil.ns - 1, zone: ceil.zone },
            ),
            _ => (false, ceil),
        };
        if cadj && (ceil2.ns + (self.zone.offset_seconds as i128) * (NS_PER_SEC as i128) < 0) {
            return Err(ClockError::InvalidDateTime);
        }
        Ok((floor2, ceil2))
    }

    /// The start of the moment's enclosing frame.
    pub fn floor(&self, frame: Frame) -> (r: Result<AtomicClock, ClockError>)
        requires
            self.wf(),
        ensures
            ({
                match span_outcome_at(
                    self.ns as int,
                    self.zone.offset_seconds as int,
                    frame,
                    1,
                    Bounds::StartInclude,
                    false,
                    1,
                ) {
                    Ok(p) => r matches Ok(c) && c.ns == p.0 && c.wf() && same_zone(
                        c.zone,
                        self.zone,
                    ),
                    Err(e) => r == Err::<AtomicClock, ClockError>(e),
                }
            }),
    {
        match self.span(frame, 1, Bounds::StartInclude, false, 1) {
            Ok(p) => Ok(p.0),
            Err(e) => Err(e),
        }
    }

    /// The end of the moment's enclosing frame (one nanosecond before the
    /// next frame starts).
    pub fn ceil(&self, frame: Frame) -> (r: Result<AtomicClock, ClockError>)
        requires
            self.wf(),
        ensures
            ({
                match span_outcome_at(
                    self.ns as int,
                    self.zone.offset_seconds as int,
                    frame,
                    1,
                    Bounds::StartInclude,
                    false,
                    1,
                ) {
                    Ok(p) => r matches Ok(c) && c.ns == p.1 && c.wf() && same_zone(
                        c.zone,
                        self.zone,
                    ),
                    Err(e) => r == Err::<AtomicClock, ClockError>(e),
                }
            }),
    {
        match self.span(frame, 1, Bounds::StartInclude, false, 1) {
            Ok(p) => Ok(p.1),
            Err(e) => Err(e),
        }
    }
}

} // verus!
