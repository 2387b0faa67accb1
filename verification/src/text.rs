//! Textual rendering and parsing through the strftime-style format engine.
//!
//! The engine itself is an outside capability: rendering a moment's fields
//! through a format string, and extracting raw calendar fields from text.
//! Everything around it — defaulting absent fields, validating the composite,
//! assembling the instant, choosing the ISO format for a timespec — is
//! verified here.

use std::fmt::Write;

use vstd::prelude::*;
use crate::clock::{
    AtomicClock, same_zone, in_local_range, civil_local_ns, lemma_civil_fields,
    lemma_local_decompose, NS_PER_SEC,
};
use crate::calendar::valid_ymd;
use crate::tz::{Tz, str_eq};
use crate::ClockError;

verus! {

use vstd::string::StringExecFns;
use vstd::string::StrSliceExecFns;

/// What the format engine renders for the given local fields, offset and
/// format string: the text, or nothing for a format it rejects.
pub uninterp spec fn strftime_of(
    y: int,
    m: int,
    d: int,
    h: int,
    mi: int,
    s: int,
    ns: int,
    off: int,
    fmt: Seq<char>,
) -> Option<Seq<char>>;

/// Relies on chrono: a `DateTime<FixedOffset>` is built from the local
/// fields and rendered through `format` with the given strftime string; the
/// result depends on the arguments alone, and an invalid format string or
/// field makes it `None` rather than text.
#[verifier::external_body]
fn render_datetime(
    y: i64,
    m: i64,
    d: i64,
    h: i64,
    mi: i64,
    s: i64,
    ns: i64,
    off: i32,
    fmt: &str,
) -> (r: Option<String>)
    ensures
        match r {
            Some(t) => strftime_of(
                y as int,
                m as int,
                d as int,
                h as int,
                mi as int,
                s as int,
                ns as int,
                off as int,
                fmt@,
            ) == Some(t@),
            None => strftime_of(
                y as int,
                m as int,
                d as int,
                h as int,
                mi as int,
                s as int,
                ns as int,
                off as int,
                fmt@,
            ) is None,
        },
{
    let nd = chrono::NaiveDate::from_ymd_opt(y as i32, m as u32, d as u32)?;
    let nt = nd.and_hms_nano_opt(h as u32, mi as u32, s as u32, ns as u32)?;
    let offz = chrono::FixedOffset::east_opt(off)?;
    let dt = match chrono::TimeZone::from_local_datetime(&offz, &nt) {
        chrono::LocalResult::Single(x) => x,
        _ => return None,
    };
    let mut out = String::new();
    match write!(out, "{}", dt.format(fmt)) {
        Ok(()) => Some(out),
        Err(_) => None,
    }
}

/// The raw calendar fields the format engine extracts from the text: year,
/// month, day, hour-div-12, hour-mod-12, minute, second, nanosecond, offset
/// seconds — each only where the format captured it — or nothing where the
/// text does not match the format.
pub uninterp spec fn strptime_fields_of(text: Seq<char>, fmt: Seq<char>) -> Option<
    (
        Option<i32>,
        Option<u32>,
        Option<u32>,
        Option<u32>,
        Option<u32>,
        Option<u32>,
        Option<u32>,
        Option<u32>,
        Option<i32>,
    ),
>;

/// Relies on chrono: `format::parse` runs the strftime items of `fmt` over
/// the text and fills the parsed fields; the result depends on the
/// arguments alone.
#[verifier::external_body]
fn parse_datetime_fields(text: &str, fmt: &str) -> (r: Option<
    (
        Option<i32>,
        Option<u32>,
        Option<u32>,
        Option<u32>,
        Option<u32>,
        Option<u32>,
        Option<u32>,
        Option<u32>,
        Option<i32>,
    ),
>)
    ensures
        r == strptime_fields_of(text@, fmt@),
{
    let mut p = chrono::format::Parsed::new();
    let items = chrono::format::StrftimeItems::new(fmt);
    if chrono::format::parse(&mut p, text, items).is_err() {
        return None;
    }
    Some((p.year, p.month, p.day, p.hour_div_12, p.hour_mod_12, p.minute, p.second, p.nanosecond, p.offset))
}

/// What assembling parsed fields yields: the instant (nanoseconds) and the
/// fixed offset parsed from the text, or the error. Absent fields default to
/// year 0, month 1, day 1, midnight, offset 0.
pub open spec fn strptime_outcome(
    f: Option<
        (
            Option<i32>,
            Option<u32>,
            Option<u32>,
            Option<u32>,
            Option<u32>,
            Option<u32>,
            Option<u32>,
            Option<u32>,
            Option<i32>,
        ),
    >,
) -> Result<(int, int), ClockError> {
    match f {
        None => Err(ClockError::ParseFailure),
        Some(t) => {
            let y = match t.0 {
                Some(v) => v as int,
                None => 0,
            };
            let mo = match t.1 {
                Some(v) => v as int,
                None => 1,
            };
            let da = match t.2 {
                Some(v) => v as int,
                None => 1,
            };
            let hd = t.3;
            let hm = t.4;
            let mi = match t.5 {
                Some(v) => v as int,
                None => 0,
            };
            let se = match t.6 {
                Some(v) => v as int,
                None => 0,
            };
            let na = match t.7 {
                Some(v) => v as int,
                None => 0,
            };
            let off = match t.8 {
                Some(v) => v as int,
                None => 0,
            };
            if hd is Some && hm is None || hd is None && hm is Some {
                Err(ClockError::ParseFailure)
            } else {
                let h = match hd {
                    Some(v) => (v as int) * 12 + (match hm {
                        Some(w) => w as int,
                        None => 0,
                    }),
                    None => 0,
                };
                if valid_ymd(y, mo, da) && 0 <= h < 24 && 0 <= mi < 60 && 0 <= se < 60 && 0 <= na
                    < 1_000_000_000 && -86400 < off && off < 86400 {
                    let ns = civil_local_ns(y, mo, da, h, mi, se, na) - off * (NS_PER_SEC as int);
                    Ok((ns, off))
                } else {
                    Err(ClockError::ParseFailure)
                }
            }
        },
    }
}

/// Defaults, validates and assembles the parsed fields into an instant and
/// the offset the text carried.
#[verifier::rlimit(100)]
fn assemble_parsed(
    t: (
        Option<i32>,
        Option<u32>,
        Option<u32>,
        Option<u32>,
        Option<u32>,
        Option<u32>,
        Option<u32>,
        Option<u32>,
        Option<i32>,
    ),
) -> (r: Result<(i128, i32), ClockError>)
    ensures
        ({
            match strptime_outcome(Some(t)) {
                Err(e) => r == Err::<(i128, i32), ClockError>(e),
                Ok(p) => {
                    &&& r matches Ok(q)
                    &&& q.0 == p.0
                    &&& q.1 == p.1
                    &&& in_local_range(p.0, p.1)
                },
            }
        }),
{
    let (fy, fmo, fda, fhd, fhm, fmi, fse, fna, foff) = t;
    let y: i64 = match fy {
        Some(v) => v as i64,
        None => 0,
    };
    let mo: i64 = match fmo {
        Some(v) => v as i64,
        None => 1,
    };
    let da: i64 = match fda {
        Some(v) => v as i64,
        None => 1,
    };
    let h: i64 = match (fhd, fhm) {
        (Some(d12), Some(m12)) => (d12 as i64) * 12 + (m12 as i64),
        (None, None) => 0,
        _ => {
            return Err(ClockError::ParseFailure);
        },
    };
    let mi: i64 = match fmi {
        Some(v) => v as i64,
        None => 0,
    };
    let se: i64 = match fse {
        Some(v) => v as i64,
        None => 0,
    };
    let na: i64 = match fna {
        Some(v) => v as i64,
        None => 0,
    };
    let off: i64 = match foff {
        Some(v) => v as i64,
        None => 0,
    };
    let date_ok = 0 <= y && y <= 9999 && 1 <= mo && mo <= 12 && 1 <= da && da
        <= crate::calendar::month_len(y, mo);
    if !(date_ok && 0 <= h && h < 24 && 0 <= mi && mi < 60 && 0 <= se && se < 60 && 0 <= na && na
        < 1_000_000_000 && -86400 < off && off < 86400) {
        return Err(ClockError::ParseFailure);
    }
    proof {
        lemma_civil_fields(y as int, mo as int, da as int, h as int, mi as int, se as int, na as int);
    }
    let n = crate::calendar::day_number_exec(y, mo, da);
    let tod: i64 = h * crate::clock::NS_PER_HOUR + mi * crate::clock::NS_PER_MINUTE + se
        * crate::clock::NS_PER_SEC + na;
    let local: i128 = (n as i128) * (crate::clock::NS_PER_DAY as i128) + (tod as i128);
    proof {
        assert(0 <= (n as int) * (crate::clock::NS_PER_DAY as int) <= (crate::calendar::TOTAL_DAYS
            - 1) * (crate::clock::NS_PER_DAY as int)) by (nonlinear_arith)
            requires
                0 <= n as int <= crate::calendar::TOTAL_DAYS - 1,
        ;
        assert(-86400_000_000_000_000 <= (off as int) * (NS_PER_SEC as int)
            <= 86400_000_000_000_000) by (nonlinear_arith)
            requires
                -86400 <= off as int <= 86400,
        ;
    }
    let ns: i128 = local - (off as i128) * (NS_PER_SEC as i128);
    Ok((ns, off as i32))
}

impl AtomicClock {
    /// Parses text through the format engine. Fields the format does not
    /// capture default to year 0, month 1, day 1, midnight, offset 0; with
    /// no explicit zone the offset parsed from the text (or 0) becomes a
    /// fixed-offset zone; with one, the instant is re-based into it.
    pub fn strptime(datetime: &str, fmt: &str, tzinfo: Option<&Tz>) -> (r: Result<
        AtomicClock,
        ClockError,
    >)
        requires
            tzinfo matches Some(z) ==> z.wf(),
        ensures
            ({
                match strptime_outcome(strptime_fields_of(datetime@, fmt@)) {
                    Err(e) => r == Err::<AtomicClock, ClockError>(e),
                    Ok(p) => {
                        match tzinfo {
                            Some(z) => {
                                if in_local_range(p.0, z.offset_seconds as int) {
                                    &&& r matches Ok(c)
                                    &&& c.ns == p.0
                                    &&& c.wf()
                                    &&& same_zone(c.zone, *z)
                                } else {
                                    r == Err::<AtomicClock, ClockError>(ClockError::InvalidDateTime)
                                }
                            },
                            None => {
                                &&& r matches Ok(c)
                                &&& c.ns == p.0
                                &&& c.wf()
                                &&& c.zone.offset_seconds == p.1
                                &&& c.zone.dst_seconds == 0
                                &&& c.zone.fixed
                            },
                        }
                    },
                }
            }),
    {
        let parsed = match parse_datetime_fields(datetime, fmt) {
            Some(t) => t,
            None => {
                return Err(ClockError::ParseFailure);
            },
        };
        let (ns, off) = match assemble_parsed(parsed) {
            Ok(q) => q,
            Err(e) => {
                return Err(e);
            },
        };
        match tzinfo {
            Some(z) => {
                proof {
                    assert(-86400_000_000_000_000 <= (z.offset_seconds as int) * (
                    NS_PER_SEC as int) <= 86400_000_000_000_000) by (nonlinear_arith)
                        requires
                            -86400 <= z.offset_seconds as int <= 86400,
                    ;
                }
                let local2: i128 = ns + (z.offset_seconds as i128) * (NS_PER_SEC as i128);
                if 0 <= local2 && local2 < crate::clock::MAX_LOCAL_NS {
                    Ok(AtomicClock { ns, zone: z.clone_tz() })
                } else {
                    Err(ClockError::InvalidDateTime)
                }
            },
            None => {
                let zone = Tz::build(off, String::new(), None);
                Ok(AtomicClock { ns, zone })
            },
        }
    }

    /// Renders the moment's local fields through the format engine; a format
    /// string the engine rejects is a parse failure.
    pub fn strftime(&self, fmt: &str) -> (r: Result<String, ClockError>)
        requires
            self.wf(),
        ensures
            ({
                match strftime_of(
                    self.year_spec(),
                    self.month_spec(),
                    self.day_spec(),
                    self.hour_spec(),
                    self.minute_spec(),
                    self.second_spec(),
                    self.subsec_ns_spec(),
                    self.zone.offset_seconds as int,
                    fmt@,
                ) {
                    Some(t) => r matches Ok(x) && x@ == t,
                    None => r == Err::<String, ClockError>(ClockError::ParseFailure),
                }
            }),
    {
        proof {
            lemma_local_decompose(self.local_ns());
        }
        let (n, _tod) = self.local_day_tod();
        let (y, m, d) = crate::calendar::date_of_day(n);
        let rendered = render_datetime(
            y,
            m,
            d,
            self.hour(),
            self.minute(),
            self.second(),
            self.subsec_nanosecond(),
            self.zone.offset_seconds,
            fmt,
        );
        match rendered {
            Some(t) => Ok(t),
            None => Err(ClockError::ParseFailure),
        }
    }

    /// Renders with a caller-supplied format string (the customary default
    /// is `"%Y-%m-%d %H:%M:%S%Z"`).
    pub fn format(&self, fmt: &str) -> (r: Result<String, ClockError>)
        requires
            self.wf(),
        ensures
            ({
                match strftime_of(
                    self.year_spec(),
                    self.month_spec(),
                    self.day_spec(),
                    self.hour_spec(),
                    self.minute_spec(),
                    self.second_spec(),
                    self.subsec_ns_spec(),
                    self.zone.offset_seconds as int,
                    fmt@,
                ) {
                    Some(t) => r matches Ok(x) && x@ == t,
                    None => r == Err::<String, ClockError>(ClockError::ParseFailure),
                }
            }),
    {
        self.strftime(fmt)
    }

    /// The ctime-style rendering.
    pub fn ctime(&self) -> (r: Result<String, ClockError>)
        requires
            self.wf(),
        ensures
            ({
                match strftime_of(
                    self.year_spec(),
                    self.month_spec(),
                    self.day_spec(),
                    self.hour_spec(),
                    self.minute_spec(),
                    self.second_spec(),
                    self.subsec_ns_spec(),
                    self.zone.offset_seconds as int,
                    "%a %b %e %T %Y"@,
                ) {
                    Some(t) => r matches Ok(x) && x@ == t,
                    None => r == Err::<String, ClockError>(ClockError::ParseFailure),
                }
            }),
    {
        self.strftime("%a %b %e %T %Y")
    }

    /// The rendering used for JSON payloads.
    pub fn for_json(&self) -> (r: Result<String, ClockError>)
        requires
            self.wf(),
        ensures
            ({
                match strftime_of(
                    self.year_spec(),
                    self.month_spec(),
                    self.day_spec(),
                    self.hour_spec(),
                    self.minute_spec(),
                    self.second_spec(),
                    self.subsec_ns_spec(),
                    self.zone.offset_seconds as int,
                    "%Y-%m-%dT%H:%M:%S%.f%Z"@,
                ) {
                    Some(t) => r matches Ok(x) && x@ == t,
                    None => r == Err::<String, ClockError>(ClockError::ParseFailure),
                }
            }),
    {
        self.strftime("%Y-%m-%dT%H:%M:%S%.f%Z")
    }

    /// The fixed ISO-8601 renderings, selected by `timespec`: `auto` and
    /// `microseconds` keep the full fractional form, the others truncate
    /// at the named unit; any other `timespec` is rejected.
    pub fn isoformat(&self, sep: &str, timespec: &str) -> (r: Result<String, ClockError>)
        requires
            self.wf(),
        ensures
            !(timespec@ == "auto"@ || timespec@ == "microseconds"@ || timespec@ == "hours"@
                || timespec@ == "minutes"@ || timespec@ == "seconds"@ || timespec@
                == "milliseconds"@) ==> r == Err::<String, ClockError>(ClockError::UnknownTimespec),
            ({
                let tail = if timespec@ == "auto"@ || timespec@ == "microseconds"@ {
                    "%H:%M:%S%.f%:z"@
                } else if timespec@ == "hours"@ {
                    "%H"@
                } else if timespec@ == "minutes"@ {
                    "%H:%M"@
                } else if timespec@ == "seconds"@ {
                    "%H:%M:%S"@
                } else {
                    "%H:%M:%S%.3f"@
                };
                (timespec@ == "auto"@ || timespec@ == "microseconds"@ || timespec@ == "hours"@
                    || timespec@ == "minutes"@ || timespec@ == "seconds"@ || timespec@
                    == "milliseconds"@) ==> match strftime_of(
                    self.year_spec(),
                    self.month_spec(),
                    self.day_spec(),
                    self.hour_spec(),
                    self.minute_spec(),
                    self.second_spec(),
                    self.subsec_ns_spec(),
                    self.zone.offset_seconds as int,
                    "%Y-%m-%d"@ + sep@ + tail,
                ) {
                    Some(t) => r matches Ok(x) && x@ == t,
                    None => r == Err::<String, ClockError>(ClockError::ParseFailure),
                }
            }),
    {
        let tail: &str = if str_eq(timespec, "auto") || str_eq(timespec, "microseconds") {
            "%H:%M:%S%.f%:z"
        } else if str_eq(timespec, "hours") {
            "%H"
        } else if str_eq(timespec, "minutes") {
            "%H:%M"
        } else if str_eq(timespec, "seconds") {
            "%H:%M:%S"
        } else if str_eq(timespec, "milliseconds") {
            "%H:%M:%S%.3f"
        } else {
            return Err(ClockError::UnknownTimespec);
        };
        let mut fmt = String::from_str("%Y-%m-%d");
        fmt.append(sep);
        fmt.append(tail);
        self.strftime(fmt.as_str())
    }
}

} // verus!
