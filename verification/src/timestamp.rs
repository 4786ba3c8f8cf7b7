//! Instants of the UTC time line, and the calendar fields that name them.
//!
//! The calendar arithmetic is that of the `time` crate: the two functions
//! [`unix_seconds_of`] and [`utc_civil_of`] stand for what it computes.

use vstd::prelude::*;

verus! {

/// A calendar date with a time of day, as six plain fields.
#[derive(Clone, Copy, Debug, PartialEq, Eq)]
pub struct CivilTime {
    pub year: i32,
    pub month: u8,
    pub day: u8,
    pub hour: u8,
    pub minute: u8,
    pub second: u8,
}

/// Whether `year` has a 29th of February in the proleptic Gregorian calendar.
pub open spec fn is_leap_year(year: int) -> bool {
    year % 4 == 0 && (year % 100 != 0 || year % 400 == 0)
}

/// Number of days of the given month, for `month` from 1 to 12.
pub open spec fn days_in_month(year: int, month: int) -> int {
    if month == 2 {
        if is_leap_year(year) {
            29
        } else {
            28
        }
    } else if month == 4 || month == 6 || month == 9 || month == 11 {
        30
    } else {
        31
    }
}

impl CivilTime {
    /// Every field lies in the range that its unit allows.
    pub open spec fn in_range(self) -> bool {
        &&& -9999 <= self.year <= 9999
        &&& 1 <= self.month <= 12
        &&& 1 <= self.day <= 31
        &&& self.hour < 24
        &&& self.minute < 60
        &&& self.second < 60
    }

    /// The fields name a day that the calendar has, and a time of that day.
    pub open spec fn is_valid(self) -> bool {
        self.in_range() && self.day <= days_in_month(self.year as int, self.month as int)
    }
}

/// Whether `local` is a valid date and time, and clocks can be set
/// `offset_hours` ahead of UTC: by 25 hours at most, either way.
pub open spec fn is_local_time(local: CivilTime, offset_hours: int) -> bool {
    local.is_valid() && -25 <= offset_hours <= 25
}

/// Seconds from the Unix epoch to the moment at which clocks set
/// `offset_hours` ahead of UTC show `local`.
pub uninterp spec fn unix_seconds_of(local: CivilTime, offset_hours: int) -> int;

/// The UTC date and time of the instant `seconds` after the Unix epoch, where
/// the calendar reaches that far.
pub uninterp spec fn utc_civil_of(seconds: int) -> Option<CivilTime>;

/// Builds the date-time from its fields with `time::Date::from_calendar_date`
/// and `time::Time::from_hms`, places it at the offset made by
/// `time::UtcOffset::from_hms` and reads `time::OffsetDateTime::unix_timestamp`.
/// The constructors accept exactly the valid fields, and offsets of up to 25
/// hours; the timestamp depends on the fields and the offset alone.
#[verifier::external_body]
fn unix_seconds_at_offset(local: &CivilTime, offset_hours: i8) -> (out: Option<i64>)
    ensures
        out is Some <==> is_local_time(*local, offset_hours as int),
        out matches Some(seconds) ==> seconds == unix_seconds_of(*local, offset_hours as int),
{
    let month = time::Month::try_from(local.month).ok()?;
    let date = time::Date::from_calendar_date(local.year, month, local.day).ok()?;
    let clock = time::Time::from_hms(local.hour, local.minute, local.second).ok()?;
    let offset = time::UtcOffset::from_hms(offset_hours, 0, 0).ok()?;
    Some(time::PrimitiveDateTime::new(date, clock).assume_offset(offset).unix_timestamp())
}

/// Reads the fields of `time::OffsetDateTime::from_unix_timestamp(seconds)`,
/// which is in UTC and fails outside the years -9999 to 9999. Each getter
/// documents the range of what it returns.
#[verifier::external_body]
fn utc_fields(seconds: i64) -> (out: Option<CivilTime>)
    ensures
        out == utc_civil_of(seconds as int),
        out matches Some(utc) ==> utc.in_range(),
{
    let t = time::OffsetDateTime::from_unix_timestamp(seconds).ok()?;
    Some(CivilTime {
        year: t.year(),
        month: u8::from(t.month()),
        day: t.day(),
        hour: t.hour(),
        minute: t.minute(),
        second: t.second(),
    })
}

/// An instant, counted in whole seconds from the Unix epoch. Only instants
/// that have a UTC calendar date can be made.
#[derive(Clone, Copy, Debug, PartialEq, Eq)]
pub struct Timestamp {
    seconds: i64,
}

impl View for Timestamp {
    type V = int;

    closed spec fn view(&self) -> int {
        self.seconds as int
    }
}

impl Timestamp {
    #[verifier::type_invariant]
    spec fn has_calendar_date(self) -> bool {
        utc_civil_of(self.seconds as int) is Some
    }

    /// The instant `seconds` after the Unix epoch, if the calendar reaches it.
    pub fn from_unix_timestamp(seconds: i64) -> (out: Option<Timestamp>)
        ensures
            out is Some <==> utc_civil_of(seconds as int) is Some,
            out matches Some(t) ==> t@ == seconds,
    {
        match utc_fields(seconds) {
            Some(_) => Some(Timestamp { seconds }),
            None => None,
        }
    }

    /// The instant at which clocks set `offset_hours` ahead of UTC show
    /// `local`. There is none where `local` is no valid date and time, where
    /// the offset exceeds 25 hours, or where the instant lies beyond the
    /// calendar.
    pub fn from_local(local: &CivilTime, offset_hours: i8) -> (out: Option<Timestamp>)
        ensures
            out is Some <==> is_local_time(*local, offset_hours as int) && utc_civil_of(
                unix_seconds_of(*local, offset_hours as int),
            ) is Some,
            out matches Some(t) ==> t@ == unix_seconds_of(*local, offset_hours as int),
    {
        match unix_seconds_at_offset(local, offset_hours) {
            Some(seconds) => Timestamp::from_unix_timestamp(seconds),
            None => None,
        }
    }

    /// Seconds from the Unix epoch to this instant.
    pub fn unix_timestamp(&self) -> (seconds: i64)
        ensures
            seconds == self@,
    {
        self.seconds
    }

    /// The date and time of day that UTC clocks show at this instant.
    pub fn to_utc(&self) -> (utc: CivilTime)
        ensures
            utc_civil_of(self@) == Some(utc),
            utc.in_range(),
    {
        proof {
            use_type_invariant(self);
        }
        match utc_fields(self.seconds) {
            Some(utc) => utc,
            None => vstd::pervasive::unreached(),
        }
    }
}

} // verus!
