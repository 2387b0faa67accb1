//! Composite calendar deltas.
//!
//! A `RelativeDelta` is a signed calendar offset: quarters fold into months,
//! weeks into days; the month part is applied as a single calendar step with
//! end-of-month clamping, the rest as a fixed duration, and an optional
//! target weekday rolls the result forward.

use vstd::prelude::*;
use crate::clock::AtomicClock;
use crate::clock::same_zone;
use crate::ClockError;

verus! {

/// A signed, composable calendar offset.
#[derive(Debug)]
pub struct RelativeDelta {
    pub years: i64,
    pub months: i64,
    pub days: i64,
    pub hours: i64,
    pub minutes: i64,
    pub seconds: i64,
    pub nanoseconds: i64,
    pub weeks: i64,
    pub quarters: i64,
    /// Target day of week, Monday as 0 through Sunday as 6.
    pub weekday: Option<i64>,
}

impl RelativeDelta {
    /// A valid target weekday, where one is set.
    pub open spec fn wf(&self) -> bool {
        self.weekday matches Some(w) ==> 0 <= w <= 6
    }

    /// Builds a delta; a target weekday outside 0 through 6 is rejected.
    pub fn new(
        years: i64,
        months: i64,
        days: i64,
        hours: i64,
        minutes: i64,
        seconds: i64,
        nanoseconds: i64,
        weeks: i64,
        quarters: i64,
        weekday: Option<i64>,
    ) -> (r: Result<RelativeDelta, ClockError>)
        ensures
            r matches Ok(d) ==> {
                &&& d.wf()
                &&& d == (RelativeDelta {
                    years,
                    months,
                    days,
                    hours,
                    minutes,
                    seconds,
                    nanoseconds,
                    weeks,
                    quarters,
                    weekday,
                })
            },
            r is Ok <==> (weekday matches Some(w) ==> 0 <= w <= 6),
            r is Err ==> r == Err::<RelativeDelta, ClockError>(ClockError::InvalidWeekday),
    {
        match weekday {
            Some(w) if w < 0 || w > 6 => Err(ClockError::InvalidWeekday),
            _ => Ok(
                RelativeDelta {
                    years,
                    months,
                    days,
                    hours,
                    minutes,
                    seconds,
                    nanoseconds,
                    weeks,
                    quarters,
                    weekday,
                },
            ),
        }
    }

    /// The delta with every numeric field negated; the target weekday is
    /// kept as it is.
    pub fn negate(&self) -> (r: RelativeDelta)
        requires
            self.years > i64::MIN,
            self.months > i64::MIN,
            self.days > i64::MIN,
            self.hours > i64::MIN,
            self.minutes > i64::MIN,
            self.seconds > i64::MIN,
            self.nanoseconds > i64::MIN,
            self.weeks > i64::MIN,
            self.quarters > i64::MIN,
        ensures
            r.years == -self.years,
            r.months == -self.months,
            r.days == -self.days,
            r.hours == -self.hours,
            r.minutes == -self.minutes,
            r.seconds == -self.seconds,
            r.nanoseconds == -self.nanoseconds,
            r.weeks == -self.weeks,
            r.quarters == -self.quarters,
            r.weekday == self.weekday,
            r.wf() == self.wf(),
    {
        RelativeDelta {
            years: -self.years,
            months: -self.months,
            days: -self.days,
            hours: -self.hours,
            minutes: -self.minutes,
            seconds: -self.seconds,
            nanoseconds: -self.nanoseconds,
            weeks: -self.weeks,
            quarters: -self.quarters,
            weekday: self.weekday,
        }
    }

    pub fn clone(&self) -> (r: RelativeDelta)
        ensures
            r == *self,
    {
        RelativeDelta {
            years: self.years,
            months: self.months,
            days: self.days,
            hours: self.hours,
            minutes: self.minutes,
            seconds: self.seconds,
            nanoseconds: self.nanoseconds,
            weeks: self.weeks,
            quarters: self.quarters,
            weekday: self.weekday,
        }
    }
}

impl AtomicClock {
    /// What shifting by a whole delta returns.
    pub open spec fn shift_delta_outcome(&self, d: RelativeDelta) -> Result<int, ClockError> {
        self.shift_outcome(
            d.years as int,
            d.months as int,
            d.days as int,
            d.hours as int,
            d.minutes as int,
            d.seconds as int,
            d.nanoseconds as int,
            d.weeks as int,
            d.quarters as int,
            d.weekday,
        )
    }

    /// Shifts the moment by a composite delta; adding a delta with `+` means
    /// exactly this.
    pub fn shift_delta(&self, d: &RelativeDelta) -> (r: Result<AtomicClock, ClockError>)
        requires
            self.wf(),
        ensures
            ({
                match self.shift_delta_outcome(*d) {
                    Ok(v) => {
                        &&& r matches Ok(c)
                        &&& c.ns == v
                        &&& c.wf()
                        &&& same_zone(c.zone, self.zone)
                    },
                    Err(e) => r == Err::<AtomicClock, ClockError>(e),
                }
            }),
    {
        self.shift_by_nanos(
            d.years,
            d.months,
            d.days,
            d.hours,
            d.minutes,
            d.seconds,
            d.nanoseconds as i128,
            d.weeks,
            d.quarters,
            d.weekday,
        )
    }

    /// Shifts the moment backward by the delta: subtracting a delta is
    /// shifting by its negation.
    pub fn sub_delta(&self, d: &RelativeDelta) -> (r: Result<AtomicClock, ClockError>)
        requires
            self.wf(),
            d.years > i64::MIN,
            d.months > i64::MIN,
            d.days > i64::MIN,
            d.hours > i64::MIN,
            d.minutes > i64::MIN,
            d.seconds > i64::MIN,
            d.nanoseconds > i64::MIN,
            d.weeks > i64::MIN,
            d.quarters > i64::MIN,
        ensures
            ({
                let neg = RelativeDelta {
                    years: -d.years as i64,
                    months: -d.months as i64,
                    days: -d.days as i64,
                    hours: -d.hours as i64,
                    minutes: -d.minutes as i64,
                    seconds: -d.seconds as i64,
                    nanoseconds: -d.nanoseconds as i64,
                    weeks: -d.weeks as i64,
                    quarters: -d.quarters as i64,
                    weekday: d.weekday,
                };
                match self.shift_delta_outcome(neg) {
                    Ok(v) => {
                        &&& r matches Ok(c)
                        &&& c.ns == v
                        &&& c.wf()
                        &&& same_zone(c.zone, self.zone)
                    },
                    Err(e) => r == Err::<AtomicClock, ClockError>(e),
                }
            }),
    {
        let neg = d.negate();
        self.shift_delta(&neg)
    }
}

} // verus!
