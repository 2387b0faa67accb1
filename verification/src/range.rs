//! Lazy, finite range and span-range generators.
//!
//! A generator is an explicit state value advanced by a pure `next`: it
//! yields successive moments stepped by a frame's delta, stopping at an end
//! bound or a yield limit, and never fails — a step that would leave the
//! supported calendar simply ends the sequence.

use vstd::prelude::*;
use crate::clock::{AtomicClock, same_zone, in_local_range, NS_PER_SEC};
use crate::delta::RelativeDelta;
use crate::span::{Frame, Bounds, span_outcome_at};
use crate::tz::Tz;
use crate::ClockError;

verus! {

/// The canonical delta of `count` frames.
pub open spec fn frame_delta_spec(frame: Frame, count: i64) -> RelativeDelta {
    RelativeDelta {
        years: if frame == Frame::Year {
            count
        } else {
            0
        },
        months: if frame == Frame::Month {
            count
        } else {
            0
        },
        days: if frame == Frame::Day {
            count
        } else {
            0
        },
        hours: if frame == Frame::Hour {
            count
        } else {
            0
        },
        minutes: if frame == Frame::Minute {
            count
        } else {
            0
        },
        seconds: if frame == Frame::Second {
            count
        } else {
            0
        },
        nanoseconds: if frame == Frame::Microsecond {
            (count * 1000) as i64
        } else {
            0
        },
        weeks: if frame == Frame::Week {
            count
        } else {
            0
        },
        quarters: if frame == Frame::Quarter {
            count
        } else {
            0
        },
        weekday: None,
    }
}

/// The canonical delta of `count` frames; `count` microseconds must fit in
/// the delta's nanoseconds.
pub fn frame_delta(frame: Frame, count: i64) -> (r: RelativeDelta)
    requires
        -9_223_372_036_854_775 <= count <= 9_223_372_036_854_775,
    ensures
        r == frame_delta_spec(frame, count),
        r.wf(),
{
    let mut d = RelativeDelta {
        years: 0,
        months: 0,
        days: 0,
        hours: 0,
        minutes: 0,
        seconds: 0,
        nanoseconds: 0,
        weeks: 0,
        quarters: 0,
        weekday: None,
    };
    match frame {
        Frame::Year => {
            d.years = count;
        },
        Frame::Month => {
            d.months = count;
        },
        Frame::Day => {
            d.days = count;
        },
        Frame::Hour => {
            d.hours = count;
        },
        Frame::Minute => {
            d.minutes = count;
        },
        Frame::Second => {
            d.seconds = count;
        },
        Frame::Microsecond => {
            d.nanoseconds = count * 1000;
        },
        Frame::Week => {
            d.weeks = count;
        },
        Frame::Quarter => {
            d.quarters = count;
        },
    }
    d
}

impl Frame {
    /// The frame's canonical step: one of this frame as a delta.
    pub fn duration(self) -> (r: RelativeDelta)
        ensures
            r == frame_delta_spec(self, 1),
            r.wf(),
    {
        frame_delta(self, 1)
    }
}

/// The state of a plain range: the moment to yield next, the inclusive end
/// bound on instants (none for an unbounded range), the step, and how many
/// of the allowed yields have been produced.
#[derive(Debug)]
pub struct DatetimeRangeGenerator {
    pub current: AtomicClock,
    pub end_ns: Option<i128>,
    pub step: RelativeDelta,
    pub limit: u64,
    pub count: u64,
    /// Set once a step leaves the supported calendar: the sequence is over.
    pub done: bool,
}

impl DatetimeRangeGenerator {
    pub open spec fn wf(&self) -> bool {
        &&& self.current.wf()
        &&& self.step.wf()
    }

    /// The generator has another moment to yield.
    pub open spec fn yields(&self) -> bool {
        &&& !self.done
        &&& self.count < self.limit
        &&& match self.end_ns {
            Some(e) => self.current.ns <= e,
            None => true,
        }
    }

    /// Builds the state for a fresh range.
    pub fn new(current: AtomicClock, end_ns: Option<i128>, step: RelativeDelta, limit: u64) -> (r:
        DatetimeRangeGenerator)
        requires
            current.wf(),
            step.wf(),
        ensures
            r.wf(),
            r.current.ns == current.ns,
            same_zone(r.current.zone, current.zone),
            r.end_ns == end_ns,
            r.step == step,
            r.limit == limit,
            r.count == 0,
            !r.done,
    {
        DatetimeRangeGenerator { current, end_ns, step, limit, count: 0, done: false }
    }

    /// Yields the current moment and steps the state forward, or reports
    /// that the sequence is over. Exhaustion is a plain `None`, never an
    /// error: a step off the supported calendar ends the sequence.
    pub fn next(&mut self) -> (r: Option<AtomicClock>)
        requires
            old(self).wf(),
        ensures
            final(self).wf(),
            r is Some <==> old(self).yields(),
            r matches Some(c) ==> {
                &&& c.ns == old(self).current.ns
                &&& same_zone(c.zone, old(self).current.zone)
                &&& c.wf()
                &&& final(self).count == old(self).count + 1
                &&& final(self).end_ns == old(self).end_ns
                &&& final(self).step == old(self).step
                &&& final(self).limit == old(self).limit
                &&& same_zone(final(self).current.zone, old(self).current.zone)
                &&& match old(self).current.shift_delta_outcome(old(self).step) {
                    Ok(v) => final(self).current.ns == v && !final(self).done,
                    Err(_) => final(self).done,
                }
            },
            r is None ==> *final(self) == *old(self),
    {
        if self.done || self.count >= self.limit {
            return None;
        }
        let within = match self.end_ns {
            Some(e) => self.current.ns <= e,
            None => true,
        };
        if !within {
            return None;
        }
        let result = self.current.clone();
        self.count = self.count + 1;
        match self.current.shift_delta(&self.step) {
            Ok(c) => {
                self.current = c;
            },
            Err(_) => {
                self.done = true;
            },
        }
        Some(result)
    }
}

impl AtomicClock {
    /// A lazy sequence of successive moments beginning at `start`, stepped
    /// by the frame's canonical delta, stopping once the next candidate's
    /// instant would pass `end` or `limit` moments have been yielded. With a
    /// zone given, `start` is first re-expressed in that zone (same
    /// instant). An `end` before `start` is rejected.
    pub fn range(
        frame: Frame,
        start: &AtomicClock,
        end: Option<&AtomicClock>,
        tz: Option<&Tz>,
        limit: Option<u64>,
    ) -> (r: Result<DatetimeRangeGenerator, ClockError>)
        requires
            start.wf(),
            tz matches Some(z) ==> z.wf(),
        ensures
            ({
                let end_ns = match end {
                    Some(e) => Some(e.ns as int),
                    None => None::<int>,
                };
                if end matches Some(e) && e.ns < start.ns {
                    r == Err::<DatetimeRangeGenerator, ClockError>(ClockError::RangeEndBeforeStart)
                } else if tz matches Some(z) && !in_local_range(
                    start.ns as int,
                    z.offset_seconds as int,
                ) {
                    r == Err::<DatetimeRangeGenerator, ClockError>(ClockError::InvalidDateTime)
                } else {
                    &&& r matches Ok(g)
                    &&& g.wf()
                    &&& g.current.ns == start.ns
                    &&& same_zone(
                        g.current.zone,
                        match tz {
                            Some(z) => *z,
                            None => start.zone,
                        },
                    )
                    &&& g.end_ns == (match end {
                        Some(e) => Some(e.ns),
                        None => None::<i128>,
                    })
                    &&& g.step == frame_delta_spec(frame, 1)
                    &&& g.limit == (match limit {
                        Some(l) => l,
                        None => u64::MAX,
                    })
                    &&& g.count == 0
                    &&& !g.done
                }
            }),
    {
        if let Some(e) = end {
            if e.ns < start.ns {
                return Err(ClockError::RangeEndBeforeStart);
            }
        }
        let start2 = match tz {
            Some(z) => match start.to(z) {
                Ok(c) => c,
                Err(e) => {
                    return Err(e);
                },
            },
            None => start.clone(),
        };
        let end_ns = match end {
            Some(e) => Some(e.ns),
            None => None,
        };
        let lim = match limit {
            Some(l) => l,
            None => u64::MAX,
        };
        Ok(DatetimeRangeGenerator::new(start2, end_ns, frame_delta(frame, 1), lim))
    }
}

/// The state of a span range: a plain range over the span starts, plus the
/// frame, policy, exactness and end moment that shape each yielded pair.
#[derive(Debug)]
pub struct DatetimeSpanRangeIter {
    pub gen: DatetimeRangeGenerator,
    pub frame: Frame,
    pub bounds: Bounds,
    pub exact: bool,
    pub end: AtomicClock,
}

/// What the span-range iterator makes of the span pair `(a, b)` of the
/// moment just yielded: the pair as is; the pair with its ceiling clipped to
/// the end (nudged per the policy); or nothing, where the remaining sliver
/// is empty or already covered.
pub open spec fn clip_span(
    a: int,
    b: int,
    exact: bool,
    bounds: Bounds,
    end_ns: int,
    off: int,
) -> Option<(int, int)> {
    if exact && b > end_ns {
        if a == end_ns || a - 1 == end_ns {
            None
        } else {
            let b2 = match bounds {
                Bounds::BothExclude | Bounds::StartInclude => end_ns - 1,
                _ => end_ns,
            };
            if in_local_range(b2, off) {
                Some((a, b2))
            } else {
                None
            }
        }
    } else {
        Some((a, b))
    }
}

impl DatetimeSpanRangeIter {
    pub open spec fn wf(&self) -> bool {
        &&& self.gen.wf()
        &&& self.end.wf()
    }

    pub fn new(
        gen: DatetimeRangeGenerator,
        frame: Frame,
        bounds: Bounds,
        exact: bool,
        end: AtomicClock,
    ) -> (r: DatetimeSpanRangeIter)
        requires
            gen.wf(),
            end.wf(),
        ensures
            r.wf(),
            r.gen == gen,
            r.frame == frame,
            r.bounds == bounds,
            r.exact == exact,
            r.end == end,
    {
        DatetimeSpanRangeIter { gen, frame, bounds, exact, end }
    }

    /// Yields the next span pair: the span of the next range moment, its
    /// ceiling clipped to the end bound when `exact`. A span that cannot be
    /// formed, or a clipped sliver that is empty or already covered, ends
    /// the sequence.
    #[verifier::rlimit(100)]
    pub fn next(&mut self) -> (r: Option<(AtomicClock, AtomicClock)>)
        requires
            old(self).wf(),
        ensures
            final(self).wf(),
            final(self).frame == old(self).frame,
            final(self).bounds == old(self).bounds,
            final(self).exact == old(self).exact,
            final(self).end == old(self).end,
            !old(self).gen.yields() ==> r is None && *final(self) == *old(self),
            old(self).gen.yields() ==> (r is Some <==> (match span_outcome_at(
                old(self).gen.current.ns as int,
                old(self).gen.current.zone.offset_seconds as int,
                old(self).frame,
                1,
                old(self).bounds,
                old(self).exact,
                1,
            ) {
                Ok(ab) => clip_span(
                    ab.0,
                    ab.1,
                    old(self).exact,
                    old(self).bounds,
                    old(self).end.ns as int,
                    old(self).gen.current.zone.offset_seconds as int,
                ) is Some,
                Err(_) => false,
            })),
            r matches Some(p) ==> {
                &&& old(self).gen.yields()
                &&& match span_outcome_at(
                    old(self).gen.current.ns as int,
                    old(self).gen.current.zone.offset_seconds as int,
                    old(self).frame,
                    1,
                    old(self).bounds,
                    old(self).exact,
                    1,
                ) {
                    Ok(ab) => clip_span(
                        ab.0,
                        ab.1,
                        old(self).exact,
                        old(self).bounds,
                        old(self).end.ns as int,
                        old(self).gen.current.zone.offset_seconds as int,
                    ) == Some((p.0.ns as int, p.1.ns as int)),
                    Err(_) => false,
                }
                &&& p.0.wf() && p.1.wf()
                &&& same_zone(p.0.zone, old(self).gen.current.zone)
                &&& same_zone(p.1.zone, old(self).gen.current.zone)
            },
    {
        let dt = match self.gen.next() {
            Some(d) => d,
            None => {
                return None;
            },
        };
        let (floor, ceil) = match dt.span(self.frame, 1, self.bounds, self.exact, 1) {
            Ok(p) => p,
            Err(_) => {
                self.gen.done = true;
                return None;
            },
        };
        if self.exact && ceil.ns > self.end.ns {
            if floor.ns == self.end.ns || floor.ns - 1 == self.end.ns {
                return None;
            }
            let clipped_ns: i128 = match self.bounds {
                Bounds::BothExclude | Bounds::StartInclude => self.end.ns - 1,
                _ => self.end.ns,
            };
            let local: i128 = clipped_ns + (floor.zone.offset_seconds as i128) * (
            NS_PER_SEC as i128);
            if local < 0 || local >= crate::clock::MAX_LOCAL_NS {
                return None;
            }
            let clipped = AtomicClock { ns: clipped_ns, zone: floor.zone.clone_tz() };
            return Some((floor, clipped));
        }
        Some((floor, ceil))
    }
}

impl AtomicClock {
    /// A lazy sequence of span pairs: `start` is floored to its frame, each
    /// step yields that moment's span, and with `exact` the last ceiling is
    /// clipped to `end`. With a zone given, both endpoints are re-based to
    /// it (same instants).
    pub fn span_range(
        frame: Frame,
        start: &AtomicClock,
        end: &AtomicClock,
        tz: Option<&Tz>,
        limit: Option<u64>,
        bounds: Bounds,
        exact: bool,
    ) -> (r: Result<DatetimeSpanRangeIter, ClockError>)
        requires
            start.wf(),
            end.wf(),
            tz matches Some(z) ==> z.wf(),
        ensures
            ({
                let off2 = match tz {
                    Some(z) => z.offset_seconds as int,
                    None => start.zone.offset_seconds as int,
                };
                r is Ok <==> {
                    &&& (tz matches Some(z) ==> in_local_range(start.ns as int, z.offset_seconds as int)
                        && in_local_range(end.ns as int, z.offset_seconds as int))
                    &&& span_outcome_at(
                        start.ns as int,
                        off2,
                        frame,
                        1,
                        Bounds::StartInclude,
                        exact,
                        1,
                    ) is Ok
                }
            }),
            r matches Ok(it) ==> {
                &&& it.wf()
                &&& it.frame == frame
                &&& it.bounds == bounds
                &&& it.exact == exact
                &&& it.end.ns == end.ns
                &&& it.gen.step == frame_delta_spec(frame, 1)
                &&& it.gen.count == 0
                &&& !it.gen.done
                &&& it.gen.end_ns == Some(end.ns)
                &&& it.gen.limit == (match limit {
                    Some(l) => l,
                    None => u64::MAX,
                })
                &&& ({
                    let off2 = match tz {
                        Some(z) => z.offset_seconds as int,
                        None => start.zone.offset_seconds as int,
                    };
                    match span_outcome_at(
                        start.ns as int,
                        off2,
                        frame,
                        1,
                        Bounds::StartInclude,
                        exact,
                        1,
                    ) {
                        Ok(ab) => it.gen.current.ns == ab.0,
                        Err(_) => false,
                    }
                })
            },
    {
        AtomicClock::interval(frame, start, end, 1, tz, limit, bounds, exact)
    }

    /// Like `span_range`, stepping by `interval` frames at a time; the
    /// interval must be a positive count.
    #[verifier::rlimit(100)]
    pub fn interval(
        frame: Frame,
        start: &AtomicClock,
        end: &AtomicClock,
        interval: u64,
        tz: Option<&Tz>,
        limit: Option<u64>,
        bounds: Bounds,
        exact: bool,
    ) -> (r: Result<DatetimeSpanRangeIter, ClockError>)
        requires
            start.wf(),
            end.wf(),
            tz matches Some(z) ==> z.wf(),
        ensures
            interval < 1 ==> r == Err::<DatetimeSpanRangeIter, ClockError>(
                ClockError::InvalidInterval,
            ),
            ({
                let off2 = match tz {
                    Some(z) => z.offset_seconds as int,
                    None => start.zone.offset_seconds as int,
                };
                r is Ok <==> {
                    &&& 1 <= interval <= 9_223_372_036_854_775
                    &&& (tz matches Some(z) ==> in_local_range(start.ns as int, z.offset_seconds as int)
                        && in_local_range(end.ns as int, z.offset_seconds as int))
                    &&& span_outcome_at(
                        start.ns as int,
                        off2,
                        frame,
                        1,
                        Bounds::StartInclude,
                        exact,
                        1,
                    ) is Ok
                }
            }),
            r matches Ok(it) ==> {
                &&& interval >= 1
                &&& it.wf()
                &&& it.frame == frame
                &&& it.bounds == bounds
                &&& it.exact == exact
                &&& it.end.ns == end.ns
                &&& it.gen.step == frame_delta_spec(frame, interval as i64)
                &&& it.gen.count == 0
                &&& !it.gen.done
                &&& it.gen.end_ns == Some(end.ns)
                &&& it.gen.limit == (match limit {
                    Some(l) => l,
                    None => u64::MAX,
                })
                &&& ({
                    let off2 = match tz {
                        Some(z) => z.offset_seconds as int,
                        None => start.zone.offset_seconds as int,
                    };
                    match span_outcome_at(
                        start.ns as int,
                        off2,
                        frame,
                        1,
                        Bounds::StartInclude,
                        exact,
                        1,
                    ) {
                        Ok(ab) => it.gen.current.ns == ab.0,
                        Err(_) => false,
                    }
                })
            },
    {
        if interval < 1 {
            return Err(ClockError::InvalidInterval);
        }
        if interval > 9_223_372_036_854_775 {
            return Err(ClockError::InvalidInterval);
        }
        let (start2, end2) = match tz {
            Some(z) => {
                let s = match start.to(z) {
                    Ok(c) => c,
                    Err(e) => {
                        return Err(e);
                    },
                };
                let e2 = match end.to(z) {
                    Ok(c) => c,
                    Err(e) => {
                        return Err(e);
                    },
                };
                (s, e2)
            },
            None => (start.clone(), end.clone()),
        };
        let floored = match start2.span(frame, 1, Bounds::StartInclude, exact, 1) {
            Ok(p) => p.0,
            Err(e) => {
                return Err(e);
            },
        };
        let lim = match limit {
            Some(l) => l,
            None => u64::MAX,
        };
        let gen = DatetimeRangeGenerator::new(
            floored,
            Some(end2.ns),
            frame_delta(frame, interval as i64),
            lim,
        );
        Ok(DatetimeSpanRangeIter::new(gen, frame, bounds, exact, end2))
    }
}

} // verus!
