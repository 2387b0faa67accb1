pub mod calendar;
pub mod clock;
pub mod delta;
pub mod get;
pub mod laws;
pub mod range;
pub mod span;
pub mod text;
pub mod tz;

use vstd::prelude::*;

verus! {

/// Which single field of a moment was out of range.
#[derive(Clone, Copy, Debug, PartialEq, Eq, Structural)]
pub enum TimeField {
    Year,
    Month,
    Day,
    Hour,
    Minute,
    Second,
    Microsecond,
}

/// Everything that can go wrong; each operation's contract says exactly
/// which variant it returns and when.
#[derive(Clone, Copy, Debug, PartialEq, Eq, Structural)]
pub enum ClockError {
    InvalidDateTime,
    InvalidField(TimeField),
    InvalidOffset,
    UnknownZoneName,
    ExternalZoneQueryFailed,
    OrdinalOutOfRange,
    InvalidWeekday,
    InvalidWeekStart,
    UnsupportedFrame,
    InvalidInterval,
    RangeEndBeforeStart,
    UnknownTimespec,
    ParseFailure,
}

/// The text of each error.
pub open spec fn message_spec(e: ClockError) -> Seq<char> {
    match e {
        ClockError::InvalidDateTime => "invalid datetime"@,
        ClockError::InvalidField(TimeField::Year) => "invalid year"@,
        ClockError::InvalidField(TimeField::Month) => "invalid month"@,
        ClockError::InvalidField(TimeField::Day) => "invalid day"@,
        ClockError::InvalidField(TimeField::Hour) => "invalid hour"@,
        ClockError::InvalidField(TimeField::Minute) => "invalid minute"@,
        ClockError::InvalidField(TimeField::Second) => "invalid second"@,
        ClockError::InvalidField(TimeField::Microsecond) => "invalid microsecond"@,
        ClockError::InvalidOffset => "invalid timezone offset"@,
        ClockError::UnknownZoneName => "unknown timezone"@,
        ClockError::ExternalZoneQueryFailed => "external timezone query failed"@,
        ClockError::OrdinalOutOfRange => "ordinal is out of range"@,
        ClockError::InvalidWeekday => "invalid weekday, valid weekday should be 0..6"@,
        ClockError::InvalidWeekStart => "invalid week_start, valid week_start should be 1..7"@,
        ClockError::UnsupportedFrame => "span doesn't support frame `microsecond`"@,
        ClockError::InvalidInterval => "interval has to be a positive int"@,
        ClockError::RangeEndBeforeStart => "end is less than start"@,
        ClockError::UnknownTimespec => "Unknown timespec value"@,
        ClockError::ParseFailure => "failed to parse datetime"@,
    }
}

impl ClockError {
    pub fn message(&self) -> (r: &'static str)
        ensures
            r@ == message_spec(*self),
    {
        match self {
            ClockError::InvalidDateTime => "invalid datetime",
            ClockError::InvalidField(TimeField::Year) => "invalid year",
            ClockError::InvalidField(TimeField::Month) => "invalid month",
            ClockError::InvalidField(TimeField::Day) => "invalid day",
            ClockError::InvalidField(TimeField::Hour) => "invalid hour",
            ClockError::InvalidField(TimeField::Minute) => "invalid minute",
            ClockError::InvalidField(TimeField::Second) => "invalid second",
            ClockError::InvalidField(TimeField::Microsecond) => "invalid microsecond",
            ClockError::InvalidOffset => "invalid timezone offset",
            ClockError::UnknownZoneName => "unknown timezone",
            ClockError::ExternalZoneQueryFailed => "external timezone query failed",
            ClockError::OrdinalOutOfRange => "ordinal is out of range",
            ClockError::InvalidWeekday => "invalid weekday, valid weekday should be 0..6",
            ClockError::InvalidWeekStart => "invalid week_start, valid week_start should be 1..7",
            ClockError::UnsupportedFrame => "span doesn't support frame `microsecond`",
            ClockError::InvalidInterval => "interval has to be a positive int",
            ClockError::RangeEndBeforeStart => "end is less than start",
            ClockError::UnknownTimespec => "Unknown timespec value",
            ClockError::ParseFailure => "failed to parse datetime",
        }
    }
}

} // verus!
