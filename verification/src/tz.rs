//! Time zones resolved to a fixed offset/DST pair.
//!
//! A zone specifier (a name, an offset text, an already-resolved zone, or the
//! plain values obtained from an external zone object) is resolved once, at a
//! reference instant, into a `Tz` carrying its UTC offset in seconds. The
//! named-zone database and the machine's local offset come from outside and
//! stand behind trusted wrappers.

use vstd::prelude::*;
use crate::ClockError;

verus! {

use vstd::string::StrSliceExecFns;
use vstd::string::StringExecFns;

/// A resolved time zone: a total UTC offset frozen at resolution time.
#[derive(Debug)]
pub struct Tz {
    /// Total offset from UTC in seconds (DST included).
    pub offset_seconds: i32,
    /// The DST component of the offset, in seconds.
    pub dst_seconds: i32,
    /// Display name: the zone name or the offset text it was built from.
    pub name: String,
    /// A fixed-offset zone (no DST ever applies).
    pub fixed: bool,
}

impl Tz {
    /// Offsets are strictly less than one day, and fixed zones carry no DST.
    pub open spec fn wf(&self) -> bool {
        &&& -86400 < self.offset_seconds < 86400
        &&& self.fixed ==> self.dst_seconds == 0
    }
}

/// The UTC zone value: offset 0, no DST, named "UTC".
pub open spec fn is_utc(z: Tz) -> bool {
    &&& z.offset_seconds == 0
    &&& z.dst_seconds == 0
    &&& !z.fixed
    &&& z.name@ == "UTC"@
}

/// What the zone database returns for a zone name at a reference instant:
/// the total UTC offset and its DST component, both in seconds.
pub uninterp spec fn zone_db_lookup(name: Seq<char>, at_sec: int) -> Option<(i32, i32)>;

/// Relies on chrono-tz: `Tz::from_str` looks the name up in the compiled
/// zone database, and the offset of the instant is split into base and DST
/// components; `fix()` always yields an offset strictly within one day.
#[verifier::external_body]
fn lookup_named_zone(name: &str, at_sec: i64) -> (r: Option<(i32, i32)>)
    ensures
        r == zone_db_lookup(name@, at_sec as int),
        r matches Some(p) ==> -86400 < p.0 < 86400,
{
    let tz: chrono_tz::Tz = match name.parse() {
        Ok(t) => t,
        Err(_) => return None,
    };
    let utc = match chrono::DateTime::from_timestamp(at_sec, 0) {
        Some(d) => d,
        None => return None,
    };
    let local = utc.with_timezone(&tz);
    let total = chrono::Offset::fix(local.offset()).local_minus_utc();
    let dst = chrono_tz::OffsetComponents::dst_offset(local.offset()).num_seconds() as i32;
    Some((total, dst))
}

/// Relies on chrono: `Local::now().offset()` is the machine's current UTC
/// offset; `fix()` always yields an offset strictly within one day.
#[verifier::external_body]
pub(crate) fn local_offset_seconds() -> (r: i32)
    ensures
        -86400 < r < 86400,
{
    let now = chrono::Local::now();
    chrono::Offset::fix(now.offset()).local_minus_utc()
}

/// Relies on chrono: `Utc::now()` reads the system clock; the subsecond part
/// is below two seconds' worth of nanoseconds (the upper half marks a leap
/// second).
#[verifier::external_body]
pub(crate) fn utc_now_parts() -> (r: (i64, u32))
    ensures
        r.1 < 2_000_000_000,
{
    let now = chrono::Utc::now();
    (now.timestamp(), now.timestamp_subsec_nanos())
}

/// Character-wise string equality.
pub fn str_eq(a: &str, b: &str) -> (r: bool)
    ensures
        r == (a@ == b@),
{
    let alen = a.unicode_len();
    let blen = b.unicode_len();
    if alen != blen {
        return false;
    }
    let mut i: usize = 0;
    while i < alen
        invariant
            0 <= i <= alen,
            alen == a@.len() == b@.len(),
            forall|j: int| 0 <= j < i ==> a@[j] == b@[j],
        decreases alen - i,
    {
        if a.get_char(i) != b.get_char(i) {
            return false;
        }
        i = i + 1;
    }
    proof {
        assert(a@ =~= b@);
    }
    true
}

/// Whether the string holds the given character.
pub fn str_has_char(s: &str, c: char) -> (r: bool)
    ensures
        r == s@.contains(c),
{
    let len = s.unicode_len();
    let mut i: usize = 0;
    while i < len
        invariant
            0 <= i <= len,
            len == s@.len(),
            forall|j: int| 0 <= j < i ==> s@[j] != c,
        decreases len - i,
    {
        if s.get_char(i) == c {
            return true;
        }
        i = i + 1;
    }
    proof {
        assert(!s@.contains(c)) by {
            if s@.contains(c) {
                let j = choose|j: int| 0 <= j < s@.len() && s@[j] == c;
            }
        }
    }
    false
}

pub open spec fn is_digit(c: char) -> bool {
    '0' <= c && c <= '9'
}

pub open spec fn digit_val(c: char) -> int {
    c as int - '0' as int
}

/// The value of a fixed-offset text of the exact shape `+HH:MM` / `-HH:MM`,
/// in seconds east of UTC; `None` where the text has any other shape.
pub open spec fn offset_text_val(s: Seq<char>) -> Option<int> {
    if s.len() == 6 && (s[0] == '+' || s[0] == '-') && is_digit(s[1]) && is_digit(s[2]) && s[3]
        == ':' && is_digit(s[4]) && is_digit(s[5]) {
        let hh = digit_val(s[1]) * 10 + digit_val(s[2]);
        let mm = digit_val(s[4]) * 10 + digit_val(s[5]);
        if hh <= 23 && mm <= 59 {
            if s[0] == '+' {
                Some(hh * 3600 + mm * 60)
            } else {
                Some(-(hh * 3600 + mm * 60))
            }
        } else {
            None
        }
    } else {
        None
    }
}

fn digit_of(c: char) -> (r: Option<u32>)
    ensures
        r matches Some(v) ==> is_digit(c) && v == digit_val(c) && v <= 9,
        r is None ==> !is_digit(c),
{
    if '0' <= c && c <= '9' {
        Some((c as u32) - ('0' as u32))
    } else {
        None
    }
}

/// Parses a fixed-offset text of the shape `+HH:MM` / `-HH:MM`.
pub fn parse_offset_text(s: &str) -> (r: Option<i32>)
    ensures
        match r {
            Some(v) => offset_text_val(s@) == Some(v as int) && -86400 < v < 86400,
            None => offset_text_val(s@) is None,
        },
{
    if s.unicode_len() != 6 {
        return None;
    }
    let sign = s.get_char(0);
    if sign != '+' && sign != '-' {
        return None;
    }
    if s.get_char(3) != ':' {
        return None;
    }
    let h1 = match digit_of(s.get_char(1)) {
        Some(v) => v,
        None => return None,
    };
    let h2 = match digit_of(s.get_char(2)) {
        Some(v) => v,
        None => return None,
    };
    let m1 = match digit_of(s.get_char(4)) {
        Some(v) => v,
        None => return None,
    };
    let m2 = match digit_of(s.get_char(5)) {
        Some(v) => v,
        None => return None,
    };
    let hh = h1 * 10 + h2;
    let mm = m1 * 10 + m2;
    if hh > 23 || mm > 59 {
        return None;
    }
    let total = (hh * 3600 + mm * 60) as i32;
    if sign == '+' {
        Some(total)
    } else {
        Some(-total)
    }
}

/// A zone specifier, consumed once to build a resolved `Tz`.
pub enum TzInfo {
    /// A zone name: an IANA-style name, `"utc"`/`"UTC"`, `"local"`, or a
    /// fixed-offset text such as `"+05:30"`.
    Named(String),
    /// An already resolved zone.
    Resolved(Tz),
    /// The plain values read off an external zone object: whatever of its
    /// offset, DST offset and name it was willing to give.
    External { offset_seconds: Option<i32>, dst_seconds: Option<i32>, name: Option<String> },
}

impl TzInfo {
    pub open spec fn wf(&self) -> bool {
        match self {
            TzInfo::Resolved(tz) => tz.wf(),
            _ => true,
        }
    }
}

/// What resolving a specifier must yield: pins the offset of every outcome
/// of `Tz::new` over the specifier, the reference instant, and (for `"local"`
/// alone) the machine offset the trusted wrapper reported.
pub open spec fn resolve_spec(info: TzInfo, ref_sec: int, local_off: int, r: Result<
    Tz,
    ClockError,
>) -> bool {
    match info {
        TzInfo::Named(s) => {
            if s@ == "local"@ {
                r matches Ok(z) && z.offset_seconds == local_off && z.dst_seconds == 0 && z.fixed
            } else if s@ == "utc"@ || s@ == "UTC"@ {
                r matches Ok(z) && z.offset_seconds == 0 && z.dst_seconds == 0
            } else if s@.contains(':') {
                match offset_text_val(s@) {
                    Some(v) => r matches Ok(z) && z.offset_seconds == v && z.dst_seconds == 0
                        && z.fixed && z.name@ == s@,
                    None => r == Err::<Tz, ClockError>(ClockError::InvalidOffset),
                }
            } else {
                match zone_db_lookup(s@, ref_sec) {
                    Some(p) => r matches Ok(z) && z.offset_seconds == p.0 && z.dst_seconds == p.1
                        && !z.fixed && z.name@ == s@,
                    None => r == Err::<Tz, ClockError>(ClockError::UnknownZoneName),
                }
            }
        },
        TzInfo::Resolved(tz) => r matches Ok(z) && z.offset_seconds == tz.offset_seconds
            && z.dst_seconds == tz.dst_seconds && z.fixed == tz.fixed && z.name@ == tz.name@,
        TzInfo::External { offset_seconds, dst_seconds, name } => {
            match offset_seconds {
                Some(o) => {
                    if -86400 < o < 86400 {
                        r matches Ok(z) && z.offset_seconds == o && z.dst_seconds == (
                        match dst_seconds {
                            Some(d) => d,
                            None => 0,
                        }) && !z.fixed
                    } else {
                        r == Err::<Tz, ClockError>(ClockError::InvalidOffset)
                    }
                },
                None => r == Err::<Tz, ClockError>(ClockError::ExternalZoneQueryFailed),
            }
        },
    }
}

impl Tz {
    /// The zone of instants taken as they are: offset 0.
    pub fn utc() -> (r: Tz)
        ensures
            r.wf(),
            r.offset_seconds == 0,
            r.dst_seconds == 0,
            !r.fixed,
            r.name@ == "UTC"@,
            is_utc(r),
    {
        Tz { offset_seconds: 0, dst_seconds: 0, name: String::from_str("UTC"), fixed: false }
    }

    /// The machine's current UTC offset, frozen as a fixed zone.
    pub fn local() -> (r: Tz)
        ensures
            r.wf(),
            r.dst_seconds == 0,
            r.fixed,
            r.name@ == "local"@,
    {
        let off = local_offset_seconds();
        Tz { offset_seconds: off, dst_seconds: 0, name: String::from_str("local"), fixed: true }
    }

    /// Assembles a resolved zone from its parts.
    pub fn build(offset_seconds: i32, name: String, dst_seconds: Option<i32>) -> (r: Tz)
        requires
            -86400 < offset_seconds < 86400,
        ensures
            r.wf(),
            r.offset_seconds == offset_seconds,
            r.name@ == name@,
            r.fixed == (dst_seconds is None),
            r.dst_seconds == (match dst_seconds {
                Some(d) => d as int,
                None => 0,
            }),
    {
        match dst_seconds {
            Some(d) => Tz { offset_seconds, dst_seconds: d, name, fixed: false },
            None => Tz { offset_seconds, dst_seconds: 0, name, fixed: true },
        }
    }

    /// Resolves a zone specifier against a reference instant (seconds since
    /// the Unix epoch). `"local"` is resolved against the machine's current
    /// offset; a named zone is looked up in the zone database at the
    /// reference instant.
    pub fn new(info: &TzInfo, ref_sec: i64) -> (r: Result<Tz, ClockError>)
        requires
            info.wf(),
        ensures
            r matches Ok(z) ==> z.wf(),
            exists|local_off: int|
                -86400 < local_off < 86400 && resolve_spec(*info, ref_sec as int, local_off, r),
    {
        match info {
            TzInfo::Named(s) => {
                if str_eq(s.as_str(), "local") {
                    let z = Tz::local();
                    proof {
                        assert(resolve_spec(*info, ref_sec as int, z.offset_seconds as int, Ok(
                            z,
                        )));
                    }
                    Ok(z)
                } else if str_eq(s.as_str(), "utc") || str_eq(s.as_str(), "UTC") {
                    let z = Tz::utc();
                    proof {
                        assert(resolve_spec(*info, ref_sec as int, 0, Ok(z)));
                    }
                    Ok(z)
                } else if str_has_char(s.as_str(), ':') {
                    match parse_offset_text(s.as_str()) {
                        Some(v) => {
                            let z = Tz {
                                offset_seconds: v,
                                dst_seconds: 0,
                                name: s.clone(),
                                fixed: true,
                            };
                            proof {
                                assert(resolve_spec(*info, ref_sec as int, 0, Ok(z)));
                            }
                            Ok(z)
                        },
                        None => {
                            proof {
                                assert(resolve_spec(*info, ref_sec as int, 0, Err(
                                    ClockError::InvalidOffset,
                                )));
                            }
                            Err(ClockError::InvalidOffset)
                        },
                    }
                } else {
                    match lookup_named_zone(s.as_str(), ref_sec) {
                        Some(p) => {
                            let z = Tz {
                                offset_seconds: p.0,
                                dst_seconds: p.1,
                                name: s.clone(),
                                fixed: false,
                            };
                            proof {
                                assert(resolve_spec(*info, ref_sec as int, 0, Ok(z)));
                            }
                            Ok(z)
                        },
                        None => {
                            proof {
                                assert(resolve_spec(*info, ref_sec as int, 0, Err(
                                    ClockError::UnknownZoneName,
                                )));
                            }
                            Err(ClockError::UnknownZoneName)
                        },
                    }
                }
            },
            TzInfo::Resolved(tz) => {
                let z = Tz {
                    offset_seconds: tz.offset_seconds,
                    dst_seconds: tz.dst_seconds,
                    name: tz.name.clone(),
                    fixed: tz.fixed,
                };
                proof {
                    assert(resolve_spec(*info, ref_sec as int, 0, Ok(z)));
                }
                Ok(z)
            },
            TzInfo::External { offset_seconds, dst_seconds, name } => {
                match offset_seconds {
                    Some(o) => {
                        if -86400 < *o && *o < 86400 {
                            let nm = match name {
                                Some(n) => n.clone(),
                                None => String::from_str("external"),
                            };
                            let ds = match dst_seconds {
                                Some(d) => *d,
                                None => 0,
                            };
                            let z = Tz {
                                offset_seconds: *o,
                                dst_seconds: ds,
                                name: nm,
                                fixed: false,
                            };
                            proof {
                                assert(resolve_spec(*info, ref_sec as int, 0, Ok(z)));
                            }
                            Ok(z)
                        } else {
                            proof {
                                assert(resolve_spec(*info, ref_sec as int, 0, Err(
                                    ClockError::InvalidOffset,
                                )));
                            }
                            Err(ClockError::InvalidOffset)
                        }
                    },
                    None => {
                        proof {
                            assert(resolve_spec(*info, ref_sec as int, 0, Err(
                                ClockError::ExternalZoneQueryFailed,
                            )));
                        }
                        Err(ClockError::ExternalZoneQueryFailed)
                    },
                }
            },
        }
    }

    /// The total UTC offset of the zone, in seconds.
    pub fn utcoffset(&self) -> (r: i32)
        ensures
            r == self.offset_seconds,
    {
        self.offset_seconds
    }

    /// The DST component of the zone's offset, in seconds.
    pub fn dst(&self) -> (r: i32)
        ensures
            r == self.dst_seconds,
    {
        self.dst_seconds
    }

    /// Same as `dst`, under the name the offset-component accessor had.
    pub fn dst_offset(&self) -> (r: i32)
        ensures
            r == self.dst_seconds,
    {
        self.dst_seconds
    }

    /// The zone's name, for a named zone; a fixed-offset zone has none.
    pub fn tzname(&self) -> (r: Option<&str>)
        ensures
            match r {
                Some(n) => !self.fixed && n@ == self.name@,
                None => self.fixed,
            },
    {
        if self.fixed {
            None
        } else {
            Some(self.name.as_str())
        }
    }

    /// Zone equality: two resolved zones are equal when their effective UTC
    /// offsets agree, whatever their names.
    pub fn eq_zone(&self, other: &Tz) -> (r: bool)
        ensures
            r == (self.offset_seconds == other.offset_seconds),
    {
        self.offset_seconds == other.offset_seconds
    }

    pub fn clone_tz(&self) -> (r: Tz)
        ensures
            r.offset_seconds == self.offset_seconds,
            r.dst_seconds == self.dst_seconds,
            r.name@ == self.name@,
            r.fixed == self.fixed,
            r.wf() == self.wf(),
    {
        Tz {
            offset_seconds: self.offset_seconds,
            dst_seconds: self.dst_seconds,
            name: self.name.clone(),
            fixed: self.fixed,
        }
    }
}

impl TzInfo {
    /// Resolves the specifier with the current instant as the reference, as
    /// bare construction does.
    pub fn try_to_tz(&self) -> (r: Result<Tz, ClockError>)
        requires
            self.wf(),
        ensures
            r matches Ok(z) ==> z.wf(),
            exists|ref_sec: int, local_off: int|
                -86400 < local_off < 86400 && resolve_spec(*self, ref_sec, local_off, r),
    {
        let now = utc_now_parts();
        Tz::new(self, now.0)
    }
}

} // verus!
