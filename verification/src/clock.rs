//! The moment type: an exact instant paired with a resolved zone.
//!
//! An instant is stored as nanoseconds counted from 0000-01-01T00:00:00 UTC;
//! the zone's fixed offset turns it into local civil fields. Every moment
//! keeps its local fields inside the supported calendar (years 0 to 9999).

use vstd::prelude::*;
use vstd::arithmetic::div_mod::{
    lemma_fundamental_div_mod, lemma_fundamental_div_mod_converse_div,
    lemma_fundamental_div_mod_converse_mod, lemma_div_is_ordered,
};
use crate::calendar::{
    day_number, days_in_month, valid_ymd, year_of_day, month_of_day, dom_of_day, weekday_mon0,
    weekday_sun0, day_number_exec, date_of_day, weekday_mon0_exec, weekday_sun0_exec,
    lemma_day_number_inverse, lemma_date_of_day_valid, TOTAL_DAYS,
};
use crate::tz::Tz;
use crate::ClockError;

verus! {

pub const NS_PER_SEC: i64 = 1_000_000_000;

pub const NS_PER_MINUTE: i64 = 60 * 1_000_000_000;

pub const NS_PER_HOUR: i64 = 3600 * 1_000_000_000;

pub const NS_PER_DAY: i64 = 86400 * 1_000_000_000;

/// One past the largest local nanosecond value: the full supported calendar.
pub const MAX_LOCAL_NS: i128 = 3652425 * 86400 * 1_000_000_000;

/// The local nanosecond value of the Unix epoch, 1970-01-01T00:00:00.
pub const EPOCH_NS: i128 = 719528 * 86400 * 1_000_000_000;

/// Truncating exec division and remainder agree with the euclidean spec
/// operators once the remainder is folded back to be non-negative.
pub fn euclid_divmod(a: i128, d: i128) -> (r: (i128, i128))
    requires
        0 < d,
        i128::MIN < a,
    ensures
        r.0 == a as int / d as int,
        r.1 == a as int % d as int,
{
    let q = a / d;
    let m = a % d;
    if m < 0 {
        proof {
            let na = -(a as int);
            lemma_fundamental_div_mod(na, d as int);
            let bq = na / (d as int);
            let br = na % (d as int);
            assert(a as int == (-bq - 1) * (d as int) + ((d as int) - br)) by (nonlinear_arith)
                requires
                    na == (d as int) * bq + br,
                    a as int == -na,
            ;
            lemma_fundamental_div_mod_converse_div(a as int, d as int, -bq - 1, d as int - br);
            lemma_fundamental_div_mod_converse_mod(a as int, d as int, -bq - 1, d as int - br);
        }
        (q - 1, m + d)
    } else {
        proof {
            if a < 0 {
                let na = -(a as int);
                lemma_fundamental_div_mod(na, d as int);
                let bq = na / (d as int);
                let br = na % (d as int);
                assert(m == -br);
                assert(br == 0);
                assert(a as int == (-bq) * (d as int) + 0) by (nonlinear_arith)
                    requires
                        na == (d as int) * bq + br,
                        br == 0,
                        a as int == -na,
                ;
                lemma_fundamental_div_mod_converse_div(a as int, d as int, -bq, 0);
                lemma_fundamental_div_mod_converse_mod(a as int, d as int, -bq, 0);
            }
        }
        (q, m)
    }
}

/// Division and remainder recovered from an exact decomposition.
pub proof fn lemma_divmod_exact(x: int, d: int, q: int, r: int)
    requires
        0 < d,
        0 <= r < d,
        x == q * d + r,
    ensures
        x / d == q,
        x % d == r,
{
    lemma_fundamental_div_mod_converse_div(x, d, q, r);
    lemma_fundamental_div_mod_converse_mod(x, d, q, r);
}

/// Local nanoseconds of the civil fields `(y, m, d, h, mi, s)` plus `subns`
/// subsecond nanoseconds.
pub open spec fn civil_local_ns(
    y: int,
    m: int,
    d: int,
    h: int,
    mi: int,
    s: int,
    subns: int,
) -> int {
    day_number(y, m, d) * (NS_PER_DAY as int) + h * (NS_PER_HOUR as int) + mi * (
    NS_PER_MINUTE as int) + s * (NS_PER_SEC as int) + subns
}

pub open spec fn valid_time(h: int, mi: int, s: int, us: int) -> bool {
    &&& 0 <= h < 24
    &&& 0 <= mi < 60
    &&& 0 <= s < 60
    &&& 0 <= us < 1_000_000
}

/// Whether an instant's local rendering under the given offset (seconds)
/// stays inside the supported calendar.
pub open spec fn in_local_range(ns: int, off: int) -> bool {
    let l = ns + off * (NS_PER_SEC as int);
    0 <= l && l < MAX_LOCAL_NS as int
}

/// The instant `seconds + nanos/1e9` after the Unix epoch, as nanoseconds
/// since 0000-01-01T00:00:00 UTC.
pub open spec fn epoch_ns_of(seconds: int, nanos: int) -> int {
    EPOCH_NS as int + seconds * (NS_PER_SEC as int) + nanos
}

/// A zone-aware point in time.
#[derive(Debug)]
pub struct AtomicClock {
    /// Nanoseconds since 0000-01-01T00:00:00 UTC.
    pub ns: i128,
    /// The zone whose offset renders the instant as civil fields.
    pub zone: Tz,
}

impl AtomicClock {
    /// The instant as local (wall-clock) nanoseconds in the moment's zone.
    pub open spec fn local_ns(&self) -> int {
        self.ns + self.zone.offset_seconds * (NS_PER_SEC as int)
    }

    /// The zone is sound and the local fields lie in the supported calendar.
    pub open spec fn wf(&self) -> bool {
        &&& self.zone.wf()
        &&& 0 <= self.local_ns() < MAX_LOCAL_NS as int
    }

    /// The local calendar day, counted from 0000-01-01.
    pub open spec fn local_day(&self) -> int {
        self.local_ns() / (NS_PER_DAY as int)
    }

    /// Nanoseconds since local midnight.
    pub open spec fn tod_ns(&self) -> int {
        self.local_ns() % (NS_PER_DAY as int)
    }

    pub open spec fn year_spec(&self) -> int {
        year_of_day(self.local_day())
    }

    pub open spec fn month_spec(&self) -> int {
        month_of_day(self.local_day())
    }

    pub open spec fn day_spec(&self) -> int {
        dom_of_day(self.local_day())
    }

    pub open spec fn hour_spec(&self) -> int {
        self.tod_ns() / (NS_PER_HOUR as int)
    }

    pub open spec fn minute_spec(&self) -> int {
        self.tod_ns() % (NS_PER_HOUR as int) / (NS_PER_MINUTE as int)
    }

    pub open spec fn second_spec(&self) -> int {
        self.tod_ns() % (NS_PER_MINUTE as int) / (NS_PER_SEC as int)
    }

    pub open spec fn subsec_ns_spec(&self) -> int {
        self.tod_ns() % (NS_PER_SEC as int)
    }

    pub open spec fn microsecond_spec(&self) -> int {
        self.subsec_ns_spec() / 1000
    }

    pub open spec fn weekday_spec(&self) -> int {
        weekday_mon0(self.local_day())
    }

    pub open spec fn isoweekday_spec(&self) -> int {
        weekday_sun0(self.local_day())
    }

    /// Seconds since the Unix epoch, rounded toward minus infinity.
    pub open spec fn epoch_seconds(&self) -> int {
        (self.ns - EPOCH_NS as int) / (NS_PER_SEC as int)
    }

    /// The subsecond part that goes with `epoch_seconds`.
    pub open spec fn epoch_subsec_ns(&self) -> int {
        (self.ns - EPOCH_NS as int) % (NS_PER_SEC as int)
    }
}

/// Two zones carrying the same resolved values.
pub open spec fn same_zone(a: Tz, b: Tz) -> bool {
    &&& a.offset_seconds == b.offset_seconds
    &&& a.dst_seconds == b.dst_seconds
    &&& a.fixed == b.fixed
    &&& a.name@ == b.name@
}

impl AtomicClock {
    /// Builds the moment whose local civil fields in `tzinfo` are the given
    /// ones; the date and time must name an existing wall-clock reading.
    pub fn new(
        year: i64,
        month: i64,
        day: i64,
        hour: i64,
        minute: i64,
        second: i64,
        microsecond: i64,
        tzinfo: &Tz,
    ) -> (r: Result<AtomicClock, ClockError>)
        requires
            tzinfo.wf(),
        ensures
            r matches Ok(c) ==> {
                &&& c.wf()
                &&& same_zone(c.zone, *tzinfo)
                &&& c.local_ns() == civil_local_ns(
                    year as int,
                    month as int,
                    day as int,
                    hour as int,
                    minute as int,
                    second as int,
                    microsecond as int * 1000,
                )
            },
            r is Ok <==> valid_ymd(year as int, month as int, day as int) && valid_time(
                hour as int,
                minute as int,
                second as int,
                microsecond as int,
            ),
            r is Err ==> r == Err::<AtomicClock, ClockError>(ClockError::InvalidDateTime),
    {
        if year < 0 || year > 9999 || month < 1 || month > 12 || day < 1 {
            return Err(ClockError::InvalidDateTime);
        }
        if day > crate::calendar::month_len(year, month) {
            return Err(ClockError::InvalidDateTime);
        }
        if hour < 0 || hour > 23 || minute < 0 || minute > 59 || second < 0 || second > 59
            || microsecond < 0 || microsecond > 999_999 {
            return Err(ClockError::InvalidDateTime);
        }
        let n = day_number_exec(year, month, day);
        let tod: i64 = hour * NS_PER_HOUR + minute * NS_PER_MINUTE + second * NS_PER_SEC
            + microsecond * 1000;
        let local: i128 = (n as i128) * (NS_PER_DAY as i128) + (tod as i128);
        proof {
            assert((n as int) * (NS_PER_DAY as int) <= (TOTAL_DAYS - 1) * (NS_PER_DAY as int)
                && 0 <= (n as int) * (NS_PER_DAY as int)) by (nonlinear_arith)
                requires
                    0 <= n as int <= TOTAL_DAYS - 1,
            ;
        }
        proof {
            assert(-86400_000_000_000_000 <= (tzinfo.offset_seconds as int) * (NS_PER_SEC as int)
                <= 86400_000_000_000_000) by (nonlinear_arith)
                requires
                    -86400 <= tzinfo.offset_seconds as int <= 86400,
            ;
        }
        let ns: i128 = local - (tzinfo.offset_seconds as i128) * (NS_PER_SEC as i128);
        Ok(AtomicClock { ns, zone: tzinfo.clone_tz() })
    }
}

/// The civil fields of a decomposed local nanosecond value are recovered
/// exactly: building local nanoseconds from fields and reading them back is
/// the identity.
pub proof fn lemma_civil_fields(y: int, m: int, d: int, h: int, mi: int, s: int, subns: int)
    requires
        valid_ymd(y, m, d),
        0 <= h < 24,
        0 <= mi < 60,
        0 <= s < 60,
        0 <= subns < 1_000_000_000,
    ensures
        ({
            let l = civil_local_ns(y, m, d, h, mi, s, subns);
            &&& 0 <= l < MAX_LOCAL_NS as int
            &&& l / (NS_PER_DAY as int) == day_number(y, m, d)
            &&& l % (NS_PER_DAY as int) == h * (NS_PER_HOUR as int) + mi * (NS_PER_MINUTE as int)
                + s * (NS_PER_SEC as int) + subns
            &&& year_of_day(l / (NS_PER_DAY as int)) == y
            &&& month_of_day(l / (NS_PER_DAY as int)) == m
            &&& dom_of_day(l / (NS_PER_DAY as int)) == d
            &&& (l % (NS_PER_DAY as int)) / (NS_PER_HOUR as int) == h
            &&& (l % (NS_PER_DAY as int)) % (NS_PER_HOUR as int) / (NS_PER_MINUTE as int) == mi
            &&& (l % (NS_PER_DAY as int)) % (NS_PER_MINUTE as int) / (NS_PER_SEC as int) == s
            &&& (l % (NS_PER_DAY as int)) % (NS_PER_SEC as int) == subns
        }),
{
    lemma_day_number_inverse(y, m, d);
    let n = day_number(y, m, d);
    let tod = h * (NS_PER_HOUR as int) + mi * (NS_PER_MINUTE as int) + s * (NS_PER_SEC as int)
        + subns;
    let l = civil_local_ns(y, m, d, h, mi, s, subns);
    assert(0 <= n * (NS_PER_DAY as int) <= (TOTAL_DAYS - 1) * (NS_PER_DAY as int))
        by (nonlinear_arith)
        requires
            0 <= n <= TOTAL_DAYS - 1,
    ;
    lemma_divmod_exact(l, NS_PER_DAY as int, n, tod);
    lemma_divmod_exact(tod, NS_PER_HOUR as int, h, mi * (NS_PER_MINUTE as int) + s * (
    NS_PER_SEC as int) + subns);
    let rest1 = mi * (NS_PER_MINUTE as int) + s * (NS_PER_SEC as int) + subns;
    lemma_divmod_exact(rest1, NS_PER_MINUTE as int, mi, s * (NS_PER_SEC as int) + subns);
    let rest2 = s * (NS_PER_SEC as int) + subns;
    lemma_divmod_exact(rest2, NS_PER_SEC as int, s, subns);
    // the inner remainders pass through the outer ones
    lemma_divmod_exact(tod, NS_PER_MINUTE as int, h * 60 + mi, rest2);
    lemma_divmod_exact(tod, NS_PER_SEC as int, (h * 60 + mi) * 60 + s, subns);
    assert(tod == ((h * 60 + mi) * 60 + s) * (NS_PER_SEC as int) + subns);
}

/// A local nanosecond value is exactly the civil fields it decomposes into.
pub proof fn lemma_local_decompose(l: int)
    requires
        0 <= l < MAX_LOCAL_NS as int,
    ensures
        ({
            let n = l / (NS_PER_DAY as int);
            let tod = l % (NS_PER_DAY as int);
            &&& 0 <= n < TOTAL_DAYS as int
            &&& 0 <= tod < NS_PER_DAY as int
            &&& valid_ymd(year_of_day(n), month_of_day(n), dom_of_day(n))
            &&& 0 <= tod / (NS_PER_HOUR as int) < 24
            &&& 0 <= tod % (NS_PER_HOUR as int) / (NS_PER_MINUTE as int) < 60
            &&& 0 <= tod % (NS_PER_MINUTE as int) / (NS_PER_SEC as int) < 60
            &&& 0 <= tod % (NS_PER_SEC as int) < 1_000_000_000
            &&& l == civil_local_ns(
                year_of_day(n),
                month_of_day(n),
                dom_of_day(n),
                tod / (NS_PER_HOUR as int),
                tod % (NS_PER_HOUR as int) / (NS_PER_MINUTE as int),
                tod % (NS_PER_MINUTE as int) / (NS_PER_SEC as int),
                tod % (NS_PER_SEC as int),
            )
        }),
{
    let nsd = NS_PER_DAY as int;
    let hr = NS_PER_HOUR as int;
    let mn = NS_PER_MINUTE as int;
    let sc = NS_PER_SEC as int;
    let n = l / nsd;
    let tod = l % nsd;
    lemma_fundamental_div_mod(l, nsd);
    vstd::arithmetic::div_mod::lemma_mod_bound(l, nsd);
    lemma_div_is_ordered(0, l, nsd);
    lemma_div_is_ordered(l, MAX_LOCAL_NS as int - 1, nsd);
    lemma_divmod_exact(MAX_LOCAL_NS as int - 1, nsd, TOTAL_DAYS as int - 1, nsd - 1);
    lemma_date_of_day_valid(n);
    lemma_day_number_inverse(year_of_day(n), month_of_day(n), dom_of_day(n));
    // split the time of day, outer units first
    let h = tod / hr;
    lemma_fundamental_div_mod(tod, hr);
    vstd::arithmetic::div_mod::lemma_mod_bound(tod, hr);
    lemma_div_is_ordered(0, tod, hr);
    lemma_div_is_ordered(tod, nsd - 1, hr);
    lemma_divmod_exact(nsd - 1, hr, 23, hr - 1);
    let rh = tod % hr;
    let mi = rh / mn;
    lemma_fundamental_div_mod(rh, mn);
    vstd::arithmetic::div_mod::lemma_mod_bound(rh, mn);
    lemma_div_is_ordered(0, rh, mn);
    lemma_div_is_ordered(rh, hr - 1, mn);
    lemma_divmod_exact(hr - 1, mn, 59, mn - 1);
    // the inner remainders agree with the direct ones
    assert(hr == mn * 60);
    vstd::arithmetic::div_mod::lemma_mod_mod(tod, mn, 60);
    let rm = tod % mn;
    let s = rm / sc;
    lemma_fundamental_div_mod(rm, sc);
    vstd::arithmetic::div_mod::lemma_mod_bound(rm, sc);
    lemma_div_is_ordered(0, rm, sc);
    lemma_div_is_ordered(rm, mn - 1, sc);
    lemma_divmod_exact(mn - 1, sc, 59, sc - 1);
    assert(mn == sc * 60);
    vstd::arithmetic::div_mod::lemma_mod_mod(tod, sc, 60);
    assert(rh % mn == rm);
    assert(rm % sc == tod % sc);
    assert(tod == h * hr + mi * mn + s * sc + tod % sc);
    assert(l == day_number(year_of_day(n), month_of_day(n), dom_of_day(n)) * nsd + tod) by {
        assert(nsd * n == n * nsd) by (nonlinear_arith);
    }
}

/// Either the given replacement or the field as it stands.
pub open spec fn upd(cur: int, o: Option<i64>) -> int {
    match o {
        Some(v) => v as int,
        None => cur,
    }
}

impl AtomicClock {
    /// What `replace` returns: the fields are swapped in one at a time, each
    /// checked against the date as it stands at that step, and a replacement
    /// zone re-bases the instant last.
    pub open spec fn replace_outcome(
        &self,
        year: Option<i64>,
        month: Option<i64>,
        day: Option<i64>,
        hour: Option<i64>,
        minute: Option<i64>,
        second: Option<i64>,
        microsecond: Option<i64>,
        tz_offset: Option<int>,
    ) -> Result<int, ClockError> {
        let y1 = upd(self.year_spec(), year);
        let m1 = upd(self.month_spec(), month);
        let d1 = upd(self.day_spec(), day);
        let h1 = upd(self.hour_spec(), hour);
        let mi1 = upd(self.minute_spec(), minute);
        let s1 = upd(self.second_spec(), second);
        let sub1 = match microsecond {
            Some(us) => (us as int) * 1000,
            None => self.subsec_ns_spec(),
        };
        if year is Some && !valid_ymd(y1, self.month_spec(), self.day_spec()) {
            Err(ClockError::InvalidField(crate::TimeField::Year))
        } else if month is Some && !valid_ymd(y1, m1, self.day_spec()) {
            Err(ClockError::InvalidField(crate::TimeField::Month))
        } else if day is Some && !valid_ymd(y1, m1, d1) {
            Err(ClockError::InvalidField(crate::TimeField::Day))
        } else if hour is Some && !(0 <= h1 < 24) {
            Err(ClockError::InvalidField(crate::TimeField::Hour))
        } else if minute is Some && !(0 <= mi1 < 60) {
            Err(ClockError::InvalidField(crate::TimeField::Minute))
        } else if second is Some && !(0 <= s1 < 60) {
            Err(ClockError::InvalidField(crate::TimeField::Second))
        } else if microsecond is Some && !(0 <= sub1 < 1_000_000_000) {
            Err(ClockError::InvalidField(crate::TimeField::Microsecond))
        } else {
            let ns1 = civil_local_ns(y1, m1, d1, h1, mi1, s1, sub1) - self.zone.offset_seconds * (
            NS_PER_SEC as int);
            match tz_offset {
                None => Ok(ns1),
                Some(off2) => if in_local_range(ns1, off2) {
                    Ok(ns1)
                } else {
                    Err(ClockError::InvalidDateTime)
                },
            }
        }
    }

    /// Returns a copy of the moment with the given fields replaced. Each
    /// replacement is validated against the date as it stands when it is
    /// applied; replacing the zone alone re-bases the same instant under the
    /// new offset.
    #[verifier::rlimit(100)]
    pub fn replace(
        &self,
        year: Option<i64>,
        month: Option<i64>,
        day: Option<i64>,
        hour: Option<i64>,
        minute: Option<i64>,
        second: Option<i64>,
        microsecond: Option<i64>,
        tzinfo: Option<&Tz>,
    ) -> (r: Result<AtomicClock, ClockError>)
        requires
            self.wf(),
            tzinfo matches Some(z) ==> z.wf(),
        ensures
            ({
                let off2 = match tzinfo {
                    Some(z) => Some(z.offset_seconds as int),
                    None => None,
                };
                match self.replace_outcome(
                    year,
                    month,
                    day,
                    hour,
                    minute,
                    second,
                    microsecond,
                    off2,
                ) {
                    Ok(v) => {
                        &&& r matches Ok(c)
                        &&& c.ns == v
                        &&& c.wf()
                        &&& same_zone(
                            c.zone,
                            match tzinfo {
                                Some(z) => *z,
                                None => self.zone,
                            },
                        )
                    },
                    Err(e) => r == Err::<AtomicClock, ClockError>(e),
                }
            }),
    {
        proof {
            lemma_local_decompose(self.local_ns());
        }
        let (n0, tod0) = self.local_day_tod();
        let (y0, m0, d0) = date_of_day(n0);
        let h0 = self.hour();
        let mi0 = self.minute();
        let s0 = self.second();
        let sub0 = self.subsec_nanosecond();
        let y1 = match year {
            Some(v) => v,
            None => y0,
        };
        let m1 = match month {
            Some(v) => v,
            None => m0,
        };
        let d1 = match day {
            Some(v) => v,
            None => d0,
        };
        let h1 = match hour {
            Some(v) => v,
            None => h0,
        };
        let mi1 = match minute {
            Some(v) => v,
            None => mi0,
        };
        let s1 = match second {
            Some(v) => v,
            None => s0,
        };
        if year.is_some() && !(0 <= y1 && y1 <= 9999 && 1 <= m0 && m0 <= 12 && 1 <= d0 && d0
            <= crate::calendar::month_len(y1, m0)) {
            return Err(ClockError::InvalidField(crate::TimeField::Year));
        }
        if month.is_some() && !(0 <= y1 && y1 <= 9999 && 1 <= m1 && m1 <= 12 && 1 <= d0 && d0
            <= crate::calendar::month_len(y1, m1)) {
            return Err(ClockError::InvalidField(crate::TimeField::Month));
        }
        if day.is_some() && !(0 <= y1 && y1 <= 9999 && 1 <= m1 && m1 <= 12 && 1 <= d1 && d1
            <= crate::calendar::month_len(y1, m1)) {
            return Err(ClockError::InvalidField(crate::TimeField::Day));
        }
        if hour.is_some() && !(0 <= h1 && h1 <= 23) {
            return Err(ClockError::InvalidField(crate::TimeField::Hour));
        }
        if minute.is_some() && !(0 <= mi1 && mi1 <= 59) {
            return Err(ClockError::InvalidField(crate::TimeField::Minute));
        }
        if second.is_some() && !(0 <= s1 && s1 <= 59) {
            return Err(ClockError::InvalidField(crate::TimeField::Second));
        }
        let sub1: i64 = match microsecond {
            Some(us) => {
                if us < 0 || us > 999_999 {
                    return Err(ClockError::InvalidField(crate::TimeField::Microsecond));
                }
                us * 1000
            },
            None => sub0,
        };
        proof {
            lemma_day_number_inverse(y1 as int, m1 as int, d1 as int);
        }
        let n1 = day_number_exec(y1, m1, d1);
        let tod1: i64 = h1 * NS_PER_HOUR + mi1 * NS_PER_MINUTE + s1 * NS_PER_SEC + sub1;
        let local1: i128 = (n1 as i128) * (NS_PER_DAY as i128) + (tod1 as i128);
        proof {
            assert(0 <= (n1 as int) * (NS_PER_DAY as int) <= (TOTAL_DAYS - 1) * (NS_PER_DAY as int))
                by (nonlinear_arith)
                requires
                    0 <= n1 as int <= TOTAL_DAYS - 1,
            ;
        }
        let ns1: i128 = local1 - (self.zone.offset_seconds as i128) * (NS_PER_SEC as i128);
        match tzinfo {
            None => Ok(AtomicClock { ns: ns1, zone: self.zone.clone_tz() }),
            Some(z) => {
                let local2: i128 = ns1 + (z.offset_seconds as i128) * (NS_PER_SEC as i128);
                if 0 <= local2 && local2 < MAX_LOCAL_NS {
                    Ok(AtomicClock { ns: ns1, zone: z.clone_tz() })
                } else {
                    Err(ClockError::InvalidDateTime)
                }
            },
        }
    }

    /// The local day number and the nanoseconds since local midnight.
    pub fn local_day_tod(&self) -> (r: (i64, i64))
        requires
            self.wf(),
        ensures
            r.0 == self.local_day(),
            r.1 == self.tod_ns(),
            0 <= r.0 < TOTAL_DAYS,
            0 <= r.1 < NS_PER_DAY,
    {
        let l: i128 = self.ns + (self.zone.offset_seconds as i128) * (NS_PER_SEC as i128);
        let (q, m) = euclid_divmod(l, NS_PER_DAY as i128);
        proof {
            lemma_div_is_ordered(0, l as int, NS_PER_DAY as int);
            lemma_div_is_ordered(l as int, MAX_LOCAL_NS as int - 1, NS_PER_DAY as int);
            lemma_divmod_exact(
                MAX_LOCAL_NS as int - 1,
                NS_PER_DAY as int,
                TOTAL_DAYS as int - 1,
                NS_PER_DAY as int - 1,
            );
            lemma_fundamental_div_mod(l as int, NS_PER_DAY as int);
        }
        (q as i64, m as i64)
    }

    pub fn year(&self) -> (r: i64)
        requires
            self.wf(),
        ensures
            r == self.year_spec(),
    {
        let (n, _tod) = self.local_day_tod();
        date_of_day(n).0
    }

    pub fn month(&self) -> (r: i64)
        requires
            self.wf(),
        ensures
            r == self.month_spec(),
    {
        let (n, _tod) = self.local_day_tod();
        date_of_day(n).1
    }

    pub fn day(&self) -> (r: i64)
        requires
            self.wf(),
        ensures
            r == self.day_spec(),
    {
        let (n, _tod) = self.local_day_tod();
        date_of_day(n).2
    }

    pub fn hour(&self) -> (r: i64)
        requires
            self.wf(),
        ensures
            r == self.hour_spec(),
            0 <= r < 24,
    {
        let (_n, tod) = self.local_day_tod();
        proof {
            lemma_div_is_ordered(0, tod as int, NS_PER_HOUR as int);
            lemma_div_is_ordered(tod as int, NS_PER_DAY as int - 1, NS_PER_HOUR as int);
            lemma_divmod_exact(NS_PER_DAY as int - 1, NS_PER_HOUR as int, 23, NS_PER_HOUR as int - 1);
        }
        tod / NS_PER_HOUR
    }

    pub fn minute(&self) -> (r: i64)
        requires
            self.wf(),
        ensures
            r == self.minute_spec(),
            0 <= r < 60,
    {
        let (_n, tod) = self.local_day_tod();
        let rem = tod % NS_PER_HOUR;
        proof {
            lemma_div_is_ordered(0, rem as int, NS_PER_MINUTE as int);
            lemma_div_is_ordered(rem as int, NS_PER_HOUR as int - 1, NS_PER_MINUTE as int);
            lemma_divmod_exact(
                NS_PER_HOUR as int - 1,
                NS_PER_MINUTE as int,
                59,
                NS_PER_MINUTE as int - 1,
            );
        }
        rem / NS_PER_MINUTE
    }

    pub fn second(&self) -> (r: i64)
        requires
            self.wf(),
        ensures
            r == self.second_spec(),
            0 <= r < 60,
    {
        let (_n, tod) = self.local_day_tod();
        let rem = tod % NS_PER_MINUTE;
        proof {
            lemma_div_is_ordered(0, rem as int, NS_PER_SEC as int);
            lemma_div_is_ordered(rem as int, NS_PER_MINUTE as int - 1, NS_PER_SEC as int);
            lemma_divmod_exact(NS_PER_MINUTE as int - 1, NS_PER_SEC as int, 59, NS_PER_SEC as int - 1);
        }
        rem / NS_PER_SEC
    }

    /// The subsecond part in whole nanoseconds.
    pub fn subsec_nanosecond(&self) -> (r: i64)
        requires
            self.wf(),
        ensures
            r == self.subsec_ns_spec(),
            0 <= r < NS_PER_SEC,
    {
        let (_n, tod) = self.local_day_tod();
        tod % NS_PER_SEC
    }

    /// The subsecond part in whole microseconds.
    pub fn microsecond(&self) -> (r: i64)
        requires
            self.wf(),
        ensures
            r == self.microsecond_spec(),
            0 <= r < 1_000_000,
    {
        let sub = self.subsec_nanosecond();
        proof {
            lemma_div_is_ordered(0, sub as int, 1000);
            lemma_div_is_ordered(sub as int, NS_PER_SEC as int - 1, 1000);
            lemma_divmod_exact(NS_PER_SEC as int - 1, 1000, 999_999, 999);
        }
        sub / 1000
    }

    /// Day of the week, Monday as 0 through Sunday as 6.
    pub fn weekday(&self) -> (r: i64)
        requires
            self.wf(),
        ensures
            r == self.weekday_spec(),
            0 <= r <= 6,
    {
        let (n, _tod) = self.local_day_tod();
        weekday_mon0_exec(n)
    }

    /// Day of the week, Sunday as 0 through Saturday as 6.
    pub fn isoweekday(&self) -> (r: i64)
        requires
            self.wf(),
        ensures
            r == self.isoweekday_spec(),
            0 <= r <= 6,
    {
        let (n, _tod) = self.local_day_tod();
        weekday_sun0_exec(n)
    }

    /// Builds the moment `seconds + nanos/1e9` after the Unix epoch, rendered
    /// in the given zone. Fails only where the instant leaves the supported
    /// calendar in that zone.
    pub fn fromtimestamp(seconds: i64, nanos: u32, tzinfo: &Tz) -> (r: Result<
        AtomicClock,
        ClockError,
    >)
        requires
            tzinfo.wf(),
        ensures
            r matches Ok(c) ==> {
                &&& c.wf()
                &&& same_zone(c.zone, *tzinfo)
                &&& c.ns == epoch_ns_of(seconds as int, nanos as int)
            },
            r is Ok <==> in_local_range(
                epoch_ns_of(seconds as int, nanos as int),
                tzinfo.offset_seconds as int,
            ),
            r is Err ==> r == Err::<AtomicClock, ClockError>(ClockError::InvalidDateTime),
    {
        proof {
            assert(-9_300_000_000_000_000_000_000_000_000 <= (seconds as int) * (NS_PER_SEC as int)
                <= 9_300_000_000_000_000_000_000_000_000) by (nonlinear_arith)
                requires
                    -9_223_372_036_854_775_808 <= seconds as int <= 9_223_372_036_854_775_807,
            ;
        }
        let ns: i128 = EPOCH_NS + (seconds as i128) * (NS_PER_SEC as i128) + (nanos as i128);
        let local: i128 = ns + (tzinfo.offset_seconds as i128) * (NS_PER_SEC as i128);
        if 0 <= local && local < MAX_LOCAL_NS {
            Ok(AtomicClock { ns, zone: tzinfo.clone_tz() })
        } else {
            Err(ClockError::InvalidDateTime)
        }
    }

    /// Same as `fromtimestamp` with the UTC zone.
    pub fn utcfromtimestamp(seconds: i64, nanos: u32) -> (r: Result<AtomicClock, ClockError>)
        ensures
            r matches Ok(c) ==> {
                &&& c.wf()
                &&& crate::tz::is_utc(c.zone)
                &&& c.ns == epoch_ns_of(seconds as int, nanos as int)
            },
            r is Ok <==> in_local_range(epoch_ns_of(seconds as int, nanos as int), 0),
            r is Err ==> r == Err::<AtomicClock, ClockError>(ClockError::InvalidDateTime),
    {
        let utc = Tz::utc();
        AtomicClock::fromtimestamp(seconds, nanos, &utc)
    }

    /// Builds the moment for the plain fields of a host civil-datetime
    /// value: its own attached zone wins, and a value without one is read
    /// as UTC.
    pub fn fromdatetime(
        year: i64,
        month: i64,
        day: i64,
        hour: i64,
        minute: i64,
        second: i64,
        microsecond: i64,
        tzinfo: Option<&Tz>,
    ) -> (r: Result<AtomicClock, ClockError>)
        requires
            tzinfo matches Some(z) ==> z.wf(),
        ensures
            r matches Ok(c) ==> {
                &&& c.wf()
                &&& c.local_ns() == civil_local_ns(
                    year as int,
                    month as int,
                    day as int,
                    hour as int,
                    minute as int,
                    second as int,
                    microsecond as int * 1000,
                )
                &&& match tzinfo {
                    Some(z) => same_zone(c.zone, *z),
                    None => crate::tz::is_utc(c.zone),
                }
            },
            r is Ok <==> valid_ymd(year as int, month as int, day as int) && valid_time(
                hour as int,
                minute as int,
                second as int,
                microsecond as int,
            ),
            r is Err ==> r == Err::<AtomicClock, ClockError>(ClockError::InvalidDateTime),
    {
        match tzinfo {
            Some(z) => AtomicClock::new(year, month, day, hour, minute, second, microsecond, z),
            None => {
                let utc = Tz::utc();
                AtomicClock::new(year, month, day, hour, minute, second, microsecond, &utc)
            },
        }
    }

    /// Builds the midnight moment for the plain fields of a host date value,
    /// in the given zone.
    pub fn fromdate(year: i64, month: i64, day: i64, tzinfo: &Tz) -> (r: Result<
        AtomicClock,
        ClockError,
    >)
        requires
            tzinfo.wf(),
        ensures
            r matches Ok(c) ==> {
                &&& c.wf()
                &&& same_zone(c.zone, *tzinfo)
                &&& c.local_ns() == civil_local_ns(year as int, month as int, day as int, 0, 0, 0, 0)
            },
            r is Ok <==> valid_ymd(year as int, month as int, day as int),
            r is Err ==> r == Err::<AtomicClock, ClockError>(ClockError::InvalidDateTime),
    {
        AtomicClock::new(year, month, day, 0, 0, 0, 0, tzinfo)
    }

    /// The moment's zone.
    pub fn tzinfo(&self) -> (r: &Tz)
        ensures
            r == &self.zone,
    {
        &self.zone
    }

    /// The moment's total UTC offset, in seconds.
    pub fn utcoffset(&self) -> (r: i32)
        ensures
            r == self.zone.offset_seconds,
    {
        self.zone.offset_seconds
    }

    /// The DST component of the moment's offset, in seconds.
    pub fn dst(&self) -> (r: i32)
        ensures
            r == self.zone.dst_seconds,
    {
        self.zone.dst_seconds
    }

    /// The current instant in the given zone.
    pub fn now(tzinfo: &Tz) -> (r: Result<AtomicClock, ClockError>)
        requires
            tzinfo.wf(),
        ensures
            r matches Ok(c) ==> c.wf() && same_zone(c.zone, *tzinfo),
            r is Err ==> r == Err::<AtomicClock, ClockError>(ClockError::InvalidDateTime),
    {
        let (secs, nanos) = crate::tz::utc_now_parts();
        AtomicClock::fromtimestamp(secs, nanos, tzinfo)
    }

    /// The current instant in UTC.
    pub fn utcnow() -> (r: Result<AtomicClock, ClockError>)
        ensures
            r matches Ok(c) ==> c.wf() && crate::tz::is_utc(c.zone),
            r is Err ==> r == Err::<AtomicClock, ClockError>(ClockError::InvalidDateTime),
    {
        let (secs, nanos) = crate::tz::utc_now_parts();
        AtomicClock::utcfromtimestamp(secs, nanos)
    }

    /// The UTC midnight of the day with the given 1-based ordinal counted
    /// from 0001-01-01; ordinals outside [1, 3652059] are rejected.
    pub fn fromordinal(ordinal: i64) -> (r: Result<AtomicClock, ClockError>)
        ensures
            r matches Ok(c) ==> {
                &&& c.wf()
                &&& crate::tz::is_utc(c.zone)
                &&& c.local_day() == ordinal + 365
                &&& c.tod_ns() == 0
            },
            r is Ok <==> 1 <= ordinal <= 3652059,
            r is Err ==> r == Err::<AtomicClock, ClockError>(ClockError::OrdinalOutOfRange),
    {
        if ordinal < 1 || ordinal > 3652059 {
            return Err(ClockError::OrdinalOutOfRange);
        }
        let n: i64 = ordinal + 365;
        let ns: i128 = (n as i128) * (NS_PER_DAY as i128);
        proof {
            assert((n as int) * (NS_PER_DAY as int) < MAX_LOCAL_NS as int && 0 <= (n as int) * (
            NS_PER_DAY as int)) by (nonlinear_arith)
                requires
                    0 <= n as int <= TOTAL_DAYS - 1,
            ;
            lemma_divmod_exact(ns as int, NS_PER_DAY as int, n as int, 0);
        }
        Ok(AtomicClock { ns, zone: Tz::utc() })
    }

    /// The 1-based ordinal of the moment's local day, counted from
    /// 0001-01-01. Days of year 0 give ordinals below 1.
    pub fn toordinal(&self) -> (r: i64)
        requires
            self.wf(),
        ensures
            r == self.local_day() - 365,
    {
        let (n, _tod) = self.local_day_tod();
        n - 365
    }

    /// Whole seconds since the Unix epoch, rounded toward minus infinity.
    pub fn int_timestamp(&self) -> (r: i64)
        requires
            self.wf(),
        ensures
            r == self.epoch_seconds(),
    {
        self.timestamp_parts().0
    }

    /// Seconds since the Unix epoch and the non-negative subsecond
    /// nanoseconds that go with them.
    pub fn timestamp_parts(&self) -> (r: (i64, u32))
        requires
            self.wf(),
        ensures
            r.0 == self.epoch_seconds(),
            r.1 == self.epoch_subsec_ns(),
            r.1 < 1_000_000_000,
    {
        let diff: i128 = self.ns - EPOCH_NS;
        let (q, m) = euclid_divmod(diff, NS_PER_SEC as i128);
        proof {
            lemma_fundamental_div_mod(diff as int, NS_PER_SEC as int);
            lemma_div_is_ordered(
                0 - 86400 * (NS_PER_SEC as int) - EPOCH_NS as int,
                diff as int,
                NS_PER_SEC as int,
            );
            lemma_div_is_ordered(diff as int, MAX_LOCAL_NS as int, NS_PER_SEC as int);
            lemma_divmod_exact(
                0 - 86400 * (NS_PER_SEC as int) - EPOCH_NS as int,
                NS_PER_SEC as int,
                (-86400 - 719528 * 86400) as int,
                0,
            );
            lemma_divmod_exact(MAX_LOCAL_NS as int, NS_PER_SEC as int, (3652425 * 86400) as int, 0);
        }
        (q as i64, m as u32)
    }

    /// The same instant rendered in another zone; fails only where the
    /// instant leaves the supported calendar under the new offset.
    pub fn to(&self, tzinfo: &Tz) -> (r: Result<AtomicClock, ClockError>)
        requires
            self.wf(),
            tzinfo.wf(),
        ensures
            r matches Ok(c) ==> {
                &&& c.wf()
                &&& c.ns == self.ns
                &&& same_zone(c.zone, *tzinfo)
            },
            r is Ok <==> in_local_range(self.ns as int, tzinfo.offset_seconds as int),
            r is Err ==> r == Err::<AtomicClock, ClockError>(ClockError::InvalidDateTime),
    {
        proof {
            assert(-86400_000_000_000_000 <= (tzinfo.offset_seconds as int) * (NS_PER_SEC as int)
                <= 86400_000_000_000_000) by (nonlinear_arith)
                requires
                    -86400 <= tzinfo.offset_seconds as int <= 86400,
            ;
        }
        let local: i128 = self.ns + (tzinfo.offset_seconds as i128) * (NS_PER_SEC as i128);
        if 0 <= local && local < MAX_LOCAL_NS {
            Ok(AtomicClock { ns: self.ns, zone: tzinfo.clone_tz() })
        } else {
            Err(ClockError::InvalidDateTime)
        }
    }

    /// A copy of the moment.
    pub fn clone(&self) -> (r: AtomicClock)
        ensures
            r.ns == self.ns,
            same_zone(r.zone, self.zone),
            r.wf() == self.wf(),
    {
        AtomicClock { ns: self.ns, zone: self.zone.clone_tz() }
    }

    /// Instant equality: zones do not matter.
    pub fn eq_instant(&self, other: &AtomicClock) -> (r: bool)
        ensures
            r == (self.ns == other.ns),
    {
        self.ns == other.ns
    }

    /// Instant order: before.
    pub fn lt(&self, other: &AtomicClock) -> (r: bool)
        ensures
            r == (self.ns < other.ns),
    {
        self.ns < other.ns
    }

    /// Instant order: not after.
    pub fn le(&self, other: &AtomicClock) -> (r: bool)
        ensures
            r == (self.ns <= other.ns),
    {
        self.ns <= other.ns
    }

    /// The exact difference of two instants in nanoseconds.
    pub fn sub_moment(&self, other: &AtomicClock) -> (r: i128)
        requires
            self.wf(),
            other.wf(),
        ensures
            r == self.ns - other.ns,
    {
        self.ns - other.ns
    }

    /// Quarter of the year, 1 through 4.
    pub fn quarter(&self) -> (r: i64)
        requires
            self.wf(),
        ensures
            r == (self.month_spec() - 1) / 3 + 1,
            1 <= r <= 4,
    {
        proof {
            let n = self.local_day();
            lemma_date_of_day_valid(n);
        }
        (self.month() - 1) / 3 + 1
    }
}

/// The ISO calendar triple of a moment: year, week and (Sunday-based)
/// weekday.
pub struct IsoCalendarDate {
    pub year: i64,
    pub week: i64,
    pub weekday: i64,
}

impl IsoCalendarDate {
    pub fn year(&self) -> (r: i64)
        ensures
            r == self.year,
    {
        self.year
    }

    pub fn week(&self) -> (r: i64)
        ensures
            r == self.week,
    {
        self.week
    }

    pub fn weekday(&self) -> (r: i64)
        ensures
            r == self.weekday,
    {
        self.weekday
    }
}

/// The Thursday of the week (Monday through Sunday) holding day `n`.
pub open spec fn thursday_of(n: int) -> int {
    n - weekday_mon0(n) + 3
}

/// The ISO year of day `n`: the year holding its week's Thursday.
pub open spec fn iso_year_of(n: int) -> int {
    year_of_day(thursday_of(n))
}

/// The ISO week number of day `n`: which week of its ISO year holds its
/// Thursday.
pub open spec fn iso_week_of(n: int) -> int {
    (thursday_of(n) - crate::calendar::days_before_year(iso_year_of(n))) / 7 + 1
}

impl AtomicClock {
    /// The ISO calendar triple: ISO year, ISO week, and the weekday with
    /// Sunday as 0 (the indexing the triple has always carried). The first days of
    /// year 0 fall in the ISO year before the supported calendar and are
    /// rejected.
    pub fn isocalendar(&self) -> (r: Result<IsoCalendarDate, ClockError>)
        requires
            self.wf(),
        ensures
            r is Ok <==> thursday_of(self.local_day()) >= 0,
            r matches Ok(icd) ==> {
                &&& icd.year == iso_year_of(self.local_day())
                &&& icd.week == iso_week_of(self.local_day())
                &&& icd.weekday == self.isoweekday_spec()
                &&& 1 <= icd.week <= 53
            },
            r is Err ==> r == Err::<IsoCalendarDate, ClockError>(ClockError::InvalidDateTime),
    {
        let (n, _tod) = self.local_day_tod();
        let wd = weekday_mon0_exec(n);
        let thu: i64 = n - wd + 3;
        if thu < 0 {
            return Err(ClockError::InvalidDateTime);
        }
        proof {
            // near the top of the range the weekday residue caps the
            // Thursday below the last supported day
            if n > TOTAL_DAYS - 5 {
                lemma_divmod_exact(n as int + 5, 7, 521775, n as int + 5 - 3652425);
            }
        }
        let (y, _m, _d) = date_of_day(thu);
        let dby = crate::calendar::days_before_year_exec(y);
        proof {
            lemma_date_of_day_valid(thu as int);
            crate::calendar::lemma_dby_bounds(0, y as int);
            crate::calendar::lemma_dby_bounds(y as int, y as int + 1);
        }
        let doy: i64 = thu - dby;
        proof {
            lemma_div_is_ordered(0, doy as int, 7);
            lemma_div_is_ordered(doy as int, 365, 7);
        }
        let week: i64 = doy / 7 + 1;
        let isowd = weekday_sun0_exec(n);
        Ok(IsoCalendarDate { year: y, week, weekday: isowd })
    }

    /// The ISO week number of the moment.
    pub fn week(&self) -> (r: Result<i64, ClockError>)
        requires
            self.wf(),
        ensures
            r is Ok <==> thursday_of(self.local_day()) >= 0,
            r matches Ok(w) ==> w == iso_week_of(self.local_day()),
            r is Err ==> r == Err::<i64, ClockError>(ClockError::InvalidDateTime),
    {
        match self.isocalendar() {
            Ok(icd) => Ok(icd.week),
            Err(e) => Err(e),
        }
    }
}

/// The calendar month-step: the month index moves by `delta` whole months
/// and the day clamps to the target month's length.
pub open spec fn add_months_ymd(y: int, m: int, d: int, delta: int) -> (int, int, int) {
    let idx = y * 12 + (m - 1) + delta;
    let ny = idx / 12;
    let nm = idx % 12 + 1;
    let nd = if d <= days_in_month(ny, nm) {
        d
    } else {
        days_in_month(ny, nm)
    };
    (ny, nm, nd)
}

/// The fixed-duration part of a calendar delta, in nanoseconds.
pub open spec fn fixed_delta_ns(
    days: int,
    hours: int,
    minutes: int,
    seconds: int,
    nanos: int,
    weeks: int,
) -> int {
    ((days + weeks * 7) * 86400 + hours * 3600 + minutes * 60 + seconds) * 1_000_000_000 + nanos
}

/// What shifting the instant `ns` under offset `off` returns: the new
/// instant in nanoseconds, or the error. Years, quarters and months fold
/// into one calendar month-step applied to the local date (clamping the
/// day), the fixed-duration units are added to the instant, and a target
/// weekday then advances 0 to 6 days forward.
pub open spec fn shift_outcome_at(
    ns: int,
    off: int,
    years: int,
    months: int,
    days: int,
    hours: int,
    minutes: int,
    seconds: int,
    nanos: int,
    weeks: int,
    quarters: int,
    weekday: Option<i64>,
) -> Result<int, ClockError> {
    let l = ns + off * (NS_PER_SEC as int);
    let n = l / (NS_PER_DAY as int);
    let tod = l % (NS_PER_DAY as int);
    let mt = years * 12 + quarters * 3 + months;
    let (ny, nm, nd) = add_months_ymd(year_of_day(n), month_of_day(n), dom_of_day(n), mt);
    if !(0 <= ny <= 9999) {
        Err(ClockError::InvalidDateTime)
    } else {
        let base = day_number(ny, nm, nd) * (NS_PER_DAY as int) + tod - off * (NS_PER_SEC as int)
            + fixed_delta_ns(days, hours, minutes, seconds, nanos, weeks);
        match weekday {
            None => if in_local_range(base, off) {
                Ok(base)
            } else {
                Err(ClockError::InvalidDateTime)
            },
            Some(w) => if !(0 <= w <= 6) {
                Err(ClockError::InvalidWeekday)
            } else {
                let wd = weekday_mon0((base + off * (NS_PER_SEC as int)) / (NS_PER_DAY as int));
                let fin = base + ((w - wd) % 7) * (NS_PER_DAY as int);
                if in_local_range(fin, off) {
                    Ok(fin)
                } else {
                    Err(ClockError::InvalidDateTime)
                }
            },
        }
    }
}

impl AtomicClock {
    /// What `shift` returns on this moment.
    pub open spec fn shift_outcome(
        &self,
        years: int,
        months: int,
        days: int,
        hours: int,
        minutes: int,
        seconds: int,
        nanos: int,
        weeks: int,
        quarters: int,
        weekday: Option<i64>,
    ) -> Result<int, ClockError> {
        shift_outcome_at(
            self.ns as int,
            self.zone.offset_seconds as int,
            years,
            months,
            days,
            hours,
            minutes,
            seconds,
            nanos,
            weeks,
            quarters,
            weekday,
        )
    }

    /// Shifts the moment by a composite calendar delta measured down to the
    /// microsecond, as the field-by-field interface gives it.
    pub fn shift(
        &self,
        years: i64,
        months: i64,
        days: i64,
        hours: i64,
        minutes: i64,
        seconds: i64,
        microseconds: i64,
        weeks: i64,
        quarters: i64,
        weekday: Option<i64>,
    ) -> (r: Result<AtomicClock, ClockError>)
        requires
            self.wf(),
        ensures
            ({
                match self.shift_outcome(
                    years as int,
                    months as int,
                    days as int,
                    hours as int,
                    minutes as int,
                    seconds as int,
                    microseconds as int * 1000,
                    weeks as int,
                    quarters as int,
                    weekday,
                ) {
                    Ok(v) => {
                        &&& r matches Ok(c)
                        &&& c.ns == v
                        &&& c.wf()
                        &&& same_zone(c.zone, self.zone)
                    },
                    Err(e) => r == Err::<AtomicClock, ClockError>(e),
                }
            }),
    {
        proof {
            assert(-9_300_000_000_000_000_000_000 <= (microseconds as int) * 1000
                <= 9_300_000_000_000_000_000_000) by (nonlinear_arith)
                requires
                    -9_223_372_036_854_775_808 <= microseconds as int <= 9_223_372_036_854_775_807,
            ;
        }
        self.shift_by_nanos(
            years,
            months,
            days,
            hours,
            minutes,
            seconds,
            (microseconds as i128) * 1000,
            weeks,
            quarters,
            weekday,
        )
    }

    /// Shifts the moment by a composite calendar delta: quarters and years
    /// fold into months, weeks into days; months are applied as one calendar
    /// step with end-of-month clamping, then the fixed-duration units, then
    /// the optional target weekday (Monday as 0) rolls forward to its next
    /// occurrence, staying put when already reached.
    #[verifier::rlimit(60)]
    pub fn shift_by_nanos(
        &self,
        years: i64,
        months: i64,
        days: i64,
        hours: i64,
        minutes: i64,
        seconds: i64,
        nanos: i128,
        weeks: i64,
        quarters: i64,
        weekday: Option<i64>,
    ) -> (r: Result<AtomicClock, ClockError>)
        requires
            self.wf(),
            -10_000_000_000_000_000_000_000 <= nanos <= 10_000_000_000_000_000_000_000,
        ensures
            ({
                match self.shift_outcome(
                    years as int,
                    months as int,
                    days as int,
                    hours as int,
                    minutes as int,
                    seconds as int,
                    nanos as int,
                    weeks as int,
                    quarters as int,
                    weekday,
                ) {
                    Ok(v) => {
                        &&& r matches Ok(c)
                        &&& c.ns == v
                        &&& c.wf()
                        &&& same_zone(c.zone, self.zone)
                    },
                    Err(e) => r == Err::<AtomicClock, ClockError>(e),
                }
            }),
    {
        proof {
            lemma_local_decompose(self.local_ns());
        }
        let (n0, tod0) = self.local_day_tod();
        let (y0, m0, d0) = date_of_day(n0);
        let mt: i128 = (years as i128) * 12 + (quarters as i128) * 3 + (months as i128);
        let idx: i128 = (y0 as i128) * 12 + ((m0 - 1) as i128) + mt;
        let (nyq, rm) = euclid_divmod(idx, 12);
        if nyq < 0 || nyq > 9999 {
            return Err(ClockError::InvalidDateTime);
        }
        let ny: i64 = nyq as i64;
        let nm: i64 = (rm as i64) + 1;
        let ml = crate::calendar::month_len(ny, nm);
        let nd: i64 = if d0 <= ml {
            d0
        } else {
            ml
        };
        let n2 = day_number_exec(ny, nm, nd);
        let dpart: i128 = (days as i128) + (weeks as i128) * 7;
        let spart: i128 = dpart * 86400 + (hours as i128) * 3600 + (minutes as i128) * 60 + (
        seconds as i128);
        let fixed: i128 = spart * 1_000_000_000 + nanos;
        proof {
            assert(0 <= (n2 as int) * (NS_PER_DAY as int) <= (TOTAL_DAYS - 1) * (NS_PER_DAY as int))
                by (nonlinear_arith)
                requires
                    0 <= n2 as int <= TOTAL_DAYS - 1,
            ;
        }
        let base: i128 = (n2 as i128) * (NS_PER_DAY as i128) + (tod0 as i128) - (
        self.zone.offset_seconds as i128) * (NS_PER_SEC as i128) + fixed;
        match weekday {
            None => {
                let local: i128 = base + (self.zone.offset_seconds as i128) * (NS_PER_SEC as i128);
                if 0 <= local && local < MAX_LOCAL_NS {
                    Ok(AtomicClock { ns: base, zone: self.zone.clone_tz() })
                } else {
                    Err(ClockError::InvalidDateTime)
                }
            },
            Some(w) => {
                if w < 0 || w > 6 {
                    return Err(ClockError::InvalidWeekday);
                }
                let local: i128 = base + (self.zone.offset_seconds as i128) * (NS_PER_SEC as i128);
                let (bday, _brem) = euclid_divmod(local, NS_PER_DAY as i128);
                let (_q, wd128) = euclid_divmod(bday + 5, 7);
                let wd: i64 = wd128 as i64;
                let adv: i64 = (w - wd + 7) % 7;
                proof {
                    vstd::arithmetic::div_mod::lemma_mod_multiples_vanish(
                        1,
                        w as int - wd as int,
                        7,
                    );
                }
                let fin: i128 = base + (adv as i128) * (NS_PER_DAY as i128);
                let local2: i128 = fin + (self.zone.offset_seconds as i128) * (NS_PER_SEC as i128);
                if 0 <= local2 && local2 < MAX_LOCAL_NS {
                    Ok(AtomicClock { ns: fin, zone: self.zone.clone_tz() })
                } else {
                    Err(ClockError::InvalidDateTime)
                }
            },
        }
    }
}

} // verus!
