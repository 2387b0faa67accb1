//! The flexible constructor: one entry point that accepts whatever the
//! caller has — a moment, a timestamp, text, a zone, host civil values, or
//! positional fields — and builds a moment from it.

use vstd::prelude::*;
use crate::clock::{
    AtomicClock, same_zone, in_local_range, civil_local_ns, epoch_ns_of, valid_time, NS_PER_SEC,
};
use crate::calendar::valid_ymd;
use crate::text::{strptime_outcome, strptime_fields_of};
use crate::tz::Tz;
use crate::ClockError;

verus! {

/// One argument of the flexible constructor, already reduced to plain
/// values: a moment, a decomposed epoch timestamp, text to parse, a resolved
/// zone, a bare integer, or the fields of a host civil datetime or date.
pub enum GetArg {
    Clock(AtomicClock),
    Timestamp(i64, u32),
    Text(String),
    Zone(Tz),
    Int(i64),
    CivilDateTime {
        year: i64,
        month: i64,
        day: i64,
        hour: i64,
        minute: i64,
        second: i64,
        microsecond: i64,
        zone: Option<Tz>,
    },
    CivilDate { year: i64, month: i64, day: i64 },
}

pub open spec fn arg_wf(a: GetArg) -> bool {
    match a {
        GetArg::Clock(c) => c.wf(),
        GetArg::Zone(z) => z.wf(),
        GetArg::CivilDateTime { zone, .. } => zone matches Some(z) ==> z.wf(),
        _ => true,
    }
}

pub open spec fn int_arg(a: GetArg) -> Option<int> {
    match a {
        GetArg::Int(v) => Some(v as int),
        _ => None,
    }
}

/// Building a moment from explicit local fields under the offset `off`:
/// exactly when the composite date and time exist.
pub open spec fn fields_outcome(
    y: int,
    m: int,
    d: int,
    h: int,
    mi: int,
    s: int,
    us: int,
    off: int,
) -> Result<(int, int), ClockError> {
    if valid_ymd(y, m, d) && valid_time(h, mi, s, us) {
        Ok((civil_local_ns(y, m, d, h, mi, s, us * 1000) - off * (NS_PER_SEC as int), off))
    } else {
        Err(ClockError::InvalidDateTime)
    }
}

/// Text handed alone is tried against the common ISO-like formats in order.
pub open spec fn parse_any_outcome(t: Seq<char>) -> Result<(int, int), ClockError> {
    match strptime_outcome(strptime_fields_of(t, "%Y-%m-%dT%H:%M:%S%.f%z"@)) {
        Ok(p) => Ok(p),
        Err(_) => match strptime_outcome(strptime_fields_of(t, "%Y-%m-%dT%H:%M:%S%.f"@)) {
            Ok(p) => Ok(p),
            Err(_) => match strptime_outcome(strptime_fields_of(t, "%Y%m%dT%H%M%S%.f"@)) {
                Ok(p) => Ok(p),
                Err(_) => strptime_outcome(strptime_fields_of(t, "%Y%m%dT%H%M%S%.f%z"@)),
            },
        },
    }
}

/// The positional form: a year followed by up to six field integers and, as
/// an eighth argument, a zone. `None` where the arguments do not fit that
/// shape.
pub open spec fn positional_fields(args: Seq<GetArg>) -> Option<(int, int, int, int, int, int, int, int)> {
    let n = args.len() as int;
    let bound: int = if n == 8 {
        7
    } else {
        n
    };
    if !(args[0] is Int) {
        None
    } else if !(forall|i: int| 1 <= i < bound ==> args[i] is Int) {
        None
    } else if n == 8 && !(args[7] is Zone) {
        None
    } else {
        let y = int_arg(args[0]).unwrap();
        let f = |p: int|
            if p < bound {
                int_arg(args[p]).unwrap()
            } else {
                0
            };
        let off = if n == 8 {
            args[7]->Zone_0.offset_seconds as int
        } else {
            0
        };
        Some((y, f(1), f(2), f(3), f(4), f(5), f(6), off))
    }
}

/// What the flexible constructor returns before any final zone change:
/// the instant and offset for the argument shapes whose outcome depends on
/// the arguments alone, the error it rejects them with, or `None` for the
/// shapes that read the clock.
pub open spec fn get_det_outcome(args: Seq<GetArg>) -> Option<Result<(int, int), ClockError>> {
    let n = args.len() as int;
    if n == 0 {
        None
    } else if n == 1 {
        match args[0] {
            GetArg::Clock(c) => Some(Ok((c.ns as int, c.zone.offset_seconds as int))),
            GetArg::Timestamp(s, nan) => {
                let v = epoch_ns_of(s as int, nan as int);
                if in_local_range(v, 0) {
                    Some(Ok((v, 0)))
                } else {
                    Some(Err(ClockError::InvalidDateTime))
                }
            },
            GetArg::Int(i) => {
                let v = epoch_ns_of(i as int, 0);
                if in_local_range(v, 0) {
                    Some(Ok((v, 0)))
                } else {
                    Some(Err(ClockError::InvalidDateTime))
                }
            },
            GetArg::Text(t) => Some(parse_any_outcome(t@)),
            GetArg::Zone(_) => None,
            GetArg::CivilDateTime { year, month, day, hour, minute, second, microsecond, zone } => {
                let off = match zone {
                    Some(z) => z.offset_seconds as int,
                    None => 0,
                };
                Some(
                    fields_outcome(
                        year as int,
                        month as int,
                        day as int,
                        hour as int,
                        minute as int,
                        second as int,
                        microsecond as int,
                        off,
                    ),
                )
            },
            GetArg::CivilDate { year, month, day } => Some(
                fields_outcome(year as int, month as int, day as int, 0, 0, 0, 0, 0),
            ),
        }
    } else if n == 2 {
        match (args[0], args[1]) {
            (
                GetArg::CivilDateTime { year, month, day, hour, minute, second, microsecond, .. },
                GetArg::Zone(z),
            ) => Some(
                fields_outcome(
                    year as int,
                    month as int,
                    day as int,
                    hour as int,
                    minute as int,
                    second as int,
                    microsecond as int,
                    z.offset_seconds as int,
                ),
            ),
            (GetArg::CivilDate { year, month, day }, GetArg::Zone(z)) => Some(
                fields_outcome(
                    year as int,
                    month as int,
                    day as int,
                    0,
                    0,
                    0,
                    0,
                    z.offset_seconds as int,
                ),
            ),
            (GetArg::Text(t), GetArg::Text(f)) => Some(
                match strptime_outcome(strptime_fields_of(t@, f@)) {
                    Ok(p) => Ok(p),
                    Err(e) => Err(e),
                },
            ),
            _ => Some(Err(ClockError::ParseFailure)),
        }
    } else if 3 <= n <= 8 {
        match positional_fields(args) {
            Some(t) => Some(fields_outcome(t.0, t.1, t.2, t.3, t.4, t.5, t.6, t.7)),
            None => Some(Err(ClockError::ParseFailure)),
        }
    } else {
        Some(Err(ClockError::ParseFailure))
    }
}

/// Builds a moment from whatever the arguments hold, then re-expresses it in
/// `tzinfo` where one is given (same instant). For the argument shapes that
/// read the clock (no arguments; a zone alone) the outcome depends on the
/// current instant; everything else is pinned by `get_det_outcome`.
#[verifier::rlimit(100)]
pub fn get(args: &Vec<GetArg>, tzinfo: Option<&Tz>) -> (r: Result<AtomicClock, ClockError>)
    requires
        forall|i: int| 0 <= i < args@.len() ==> arg_wf(#[trigger] args@[i]),
        tzinfo matches Some(z) ==> z.wf(),
    ensures
        r matches Ok(c) ==> c.wf(),
        tzinfo matches Some(z) ==> (r matches Ok(c) ==> same_zone(c.zone, *z)),
        ({
            match get_det_outcome(args@) {
                None => true,
                Some(Err(e)) => r == Err::<AtomicClock, ClockError>(e),
                Some(Ok(p)) => match tzinfo {
                    None => r matches Ok(c) && c.ns == p.0 && c.zone.offset_seconds == p.1,
                    Some(z) => {
                        if in_local_range(p.0, z.offset_seconds as int) {
                            r matches Ok(c) && c.ns == p.0
                        } else {
                            r == Err::<AtomicClock, ClockError>(ClockError::InvalidDateTime)
                        }
                    },
                },
            }
        }),
{
    let n = args.len();
    let base: Result<AtomicClock, ClockError> = if n == 0 {
        AtomicClock::utcnow()
    } else if n == 1 {
        match &args[0] {
            GetArg::Clock(c) => Ok(c.clone()),
            GetArg::Timestamp(s, nan) => {
                let utc = Tz::utc();
                AtomicClock::fromtimestamp(*s, *nan, &utc)
            },
            GetArg::Int(i) => {
                let utc = Tz::utc();
                AtomicClock::fromtimestamp(*i, 0, &utc)
            },
            GetArg::Text(t) => {
                match AtomicClock::strptime(t.as_str(), "%Y-%m-%dT%H:%M:%S%.f%z", None) {
                    Ok(c) => Ok(c),
                    Err(_) => match AtomicClock::strptime(
                        t.as_str(),
                        "%Y-%m-%dT%H:%M:%S%.f",
                        None,
                    ) {
                        Ok(c) => Ok(c),
                        Err(_) => match AtomicClock::strptime(t.as_str(), "%Y%m%dT%H%M%S%.f", None) {
                            Ok(c) => Ok(c),
                            Err(_) => AtomicClock::strptime(t.as_str(), "%Y%m%dT%H%M%S%.f%z", None),
                        },
                    },
                }
            },
            GetArg::Zone(z) => AtomicClock::now(z),
            GetArg::CivilDateTime { year, month, day, hour, minute, second, microsecond, zone } => {
                let zv = match zone {
                    Some(z) => z.clone_tz(),
                    None => Tz::utc(),
                };
                AtomicClock::new(*year, *month, *day, *hour, *minute, *second, *microsecond, &zv)
            },
            GetArg::CivilDate { year, month, day } => {
                let utc = Tz::utc();
                AtomicClock::new(*year, *month, *day, 0, 0, 0, 0, &utc)
            },
        }
    } else if n == 2 {
        match (&args[0], &args[1]) {
            (
                GetArg::CivilDateTime { year, month, day, hour, minute, second, microsecond, .. },
                GetArg::Zone(z),
            ) => AtomicClock::new(*year, *month, *day, *hour, *minute, *second, *microsecond, z),
            (GetArg::CivilDate { year, month, day }, GetArg::Zone(z)) => AtomicClock::new(
                *year,
                *month,
                *day,
                0,
                0,
                0,
                0,
                z,
            ),
            (GetArg::Text(t), GetArg::Text(f)) => AtomicClock::strptime(
                t.as_str(),
                f.as_str(),
                None,
            ),
            _ => Err(ClockError::ParseFailure),
        }
    } else if n <= 8 {
        let bound: usize = if n == 8 {
            7
        } else {
            n
        };
        let year = match &args[0] {
            GetArg::Int(v) => *v,
            _ => {
                return Err(ClockError::ParseFailure);
            },
        };
        let month: i64 = if bound > 1 {
            match &args[1] {
                GetArg::Int(v) => *v,
                _ => {
                    return Err(ClockError::ParseFailure);
                },
            }
        } else {
            0
        };
        let day: i64 = if bound > 2 {
            match &args[2] {
                GetArg::Int(v) => *v,
                _ => {
                    return Err(ClockError::ParseFailure);
                },
            }
        } else {
            0
        };
        let hour: i64 = if bound > 3 {
            match &args[3] {
                GetArg::Int(v) => *v,
                _ => {
                    return Err(ClockError::ParseFailure);
                },
            }
        } else {
            0
        };
        let minute: i64 = if bound > 4 {
            match &args[4] {
                GetArg::Int(v) => *v,
                _ => {
                    return Err(ClockError::ParseFailure);
                },
            }
        } else {
            0
        };
        let second: i64 = if bound > 5 {
            match &args[5] {
                GetArg::Int(v) => *v,
                _ => {
                    return Err(ClockError::ParseFailure);
                },
            }
        } else {
            0
        };
        let microsecond: i64 = if bound > 6 {
            match &args[6] {
                GetArg::Int(v) => *v,
                _ => {
                    return Err(ClockError::ParseFailure);
                },
            }
        } else {
            0
        };
        let zv = if n == 8 {
            match &args[7] {
                GetArg::Zone(z) => z.clone_tz(),
                _ => {
                    return Err(ClockError::ParseFailure);
                },
            }
        } else {
            Tz::utc()
        };
        proof {
            assert(forall|i: int| 1 <= i < bound ==> args@[i] is Int);
        }
        AtomicClock::new(year, month, day, hour, minute, second, microsecond, &zv)
    } else {
        Err(ClockError::ParseFailure)
    };
    let c = match base {
        Ok(c) => c,
        Err(e) => {
            return Err(e);
        },
    };
    match tzinfo {
        Some(z) => c.to(z),
        None => Ok(c),
    }
}

} // verus!
