//! Points in time (UTC), and the calendar questions the library asks about them.
//!
//! An [`Instant`] holds a UNIX timestamp in seconds and the nanoseconds within that second
//! (past 999 999 999 only inside a leap second), as the date library counts them. Instants are
//! only made by the date library, so each is one that it can represent.
use vstd::prelude::*;
use chrono::{DateTime, Datelike, TimeDelta, Utc};

verus! {

/// Whether the date library can represent the UTC time `secs` seconds and `nanos` nanoseconds
/// after the UNIX epoch (`DateTime::<Utc>::from_timestamp(secs, nanos)` succeeds).
pub uninterp spec fn utc_representable(secs: int, nanos: int) -> bool;

/// `DateTime::parse_from_rfc3339(s)`, converted to UTC: timestamp and sub-second nanoseconds.
pub uninterp spec fn rfc3339_instant(s: Seq<char>) -> Option<(int, int)>;

/// `DateTime::parse_from_str(s, "%Y-%m-%dT%H:%M:%S%.fZ")`, converted to UTC.
pub uninterp spec fn fractional_z_instant(s: Seq<char>) -> Option<(int, int)>;

/// The proleptic Gregorian (year, month) of the day `days` days after 1970-01-01: the days are
/// counted from 0000-03-01 in 400-year eras of 146 097 days, years of the era start in March,
/// and January and February belong to the next year.
pub open spec fn civil_year_month(days: int) -> (int, int) {
    let z = days + 719_468;
    let era = z / 146_097;
    let doe = z % 146_097;
    let yoe = (doe - doe / 1460 + doe / 36_524 - doe / 146_096) / 365;
    let doy = doe - (365 * yoe + yoe / 4 - yoe / 100);
    let mp = (5 * doy + 2) / 153;
    let month = if mp < 10 { mp + 3 } else { mp - 9 };
    let year = yoe + era * 400 + if month <= 2 { 1int } else { 0int };
    (year, month)
}

/// The calendar year of the UTC time (the day is `secs` divided by 86 400, rounded down; the
/// nanoseconds, a leap second included, never change the day).
pub open spec fn utc_year(secs: int, nanos: int) -> int {
    civil_year_month(secs / 86_400).0
}

/// The calendar month (1 to 12) of the UTC time.
pub open spec fn utc_month(secs: int, nanos: int) -> int {
    civil_year_month(secs / 86_400).1
}

/// The day, counted from 1970-01-01, of the proleptic Gregorian date `year`-`month`-`day`.
pub open spec fn days_from_civil(year: int, month: int, day: int) -> int {
    let y = if month <= 2 { year - 1 } else { year };
    let era = y / 400;
    let yoe = y - era * 400;
    let mp = if month > 2 { month - 3 } else { month + 9 };
    let doy = (153 * mp + 2) / 5 + day - 1;
    let doe = yoe * 365 + yoe / 4 - yoe / 100 + doy;
    era * 146_097 + doe - 719_468
}

/// The weekday of a day counted from 1970-01-01 (a Thursday), Monday being 0.
pub open spec fn weekday_from_monday(days: int) -> int {
    (days + 3) % 7
}

pub open spec fn is_leap_year(year: int) -> bool {
    year % 4 == 0 && (year % 100 != 0 || year % 400 == 0)
}

/// ISO weeks in a year: 53 when it starts on a Thursday, or on a Wednesday in a leap year.
pub open spec fn iso_weeks_in(year: int) -> int {
    let jan1 = weekday_from_monday(days_from_civil(year, 1, 1));
    if jan1 == 3 || (jan1 == 2 && is_leap_year(year)) {
        53
    } else {
        52
    }
}

/// The ISO 8601 (week-numbering year, week) of a day counted from 1970-01-01: weeks start on
/// Monday, and week 1 is the one holding the year's first Thursday.
pub open spec fn iso_year_week(days: int) -> (int, int) {
    let year = civil_year_month(days).0;
    let ordinal = days - days_from_civil(year, 1, 1) + 1;
    let week = (ordinal - (weekday_from_monday(days) + 1) + 10) / 7;
    if week < 1 {
        (year - 1, iso_weeks_in(year - 1))
    } else if week > iso_weeks_in(year) {
        (year + 1, 1)
    } else {
        (year, week)
    }
}

/// The ISO 8601 week-numbering year of the UTC date.
pub open spec fn utc_iso_year(secs: int, nanos: int) -> int {
    iso_year_week(secs / 86_400).0
}

/// The ISO 8601 week number (1 to 53) of the UTC date.
pub open spec fn utc_iso_week(secs: int, nanos: int) -> int {
    iso_year_week(secs / 86_400).1
}

/// `checked_sub_signed(TimeDelta::milliseconds(ms))` of the UTC time.
pub uninterp spec fn utc_minus_millis(secs: int, nanos: int, ms: int) -> Option<(int, int)>;

/// `to_rfc3339()` of the UTC time.
pub uninterp spec fn utc_rfc3339(secs: int, nanos: int) -> Seq<char>;

/// A UTC point in time that the date library can represent.
#[derive(Clone, Copy, Debug)]
pub struct Instant {
    secs: i64,
    nanos: u32,
}

impl Instant {
    /// Seconds since the UNIX epoch.
    pub closed spec fn secs(self) -> int {
        self.secs as int
    }

    /// Nanoseconds within the second.
    pub closed spec fn nanos(self) -> int {
        self.nanos as int
    }

    /// The stored numbers fit their machine types.
    pub proof fn lemma_ranges(self)
        ensures
            0 <= self.nanos() <= u32::MAX,
            i64::MIN <= self.secs() <= i64::MAX,
    {
    }

    #[verifier::type_invariant]
    closed spec fn inv(self) -> bool {
        utc_representable(self.secs as int, self.nanos as int)
    }

    /// Seconds since the UNIX epoch.
    pub fn timestamp(&self) -> (s: i64)
        ensures
            s == self.secs(),
    {
        self.secs
    }

    /// Nanoseconds within the second.
    pub fn subsec_nanos(&self) -> (n: u32)
        ensures
            n == self.nanos(),
    {
        self.nanos
    }

    /// `self` is not later than `other`. The date library orders UTC times by timestamp, then
    /// by the nanoseconds within the second.
    pub fn not_after(&self, other: &Instant) -> (b: bool)
        ensures
            b == instant_le(*self, *other),
    {
        self.secs < other.secs || (self.secs == other.secs && self.nanos <= other.nanos)
    }

    /// The instant `secs` seconds and `nanos` nanoseconds after the UNIX epoch, if the date
    /// library can represent it.
    pub fn from_timestamp(secs: i64, nanos: u32) -> (r: Option<Instant>)
        ensures
            r is Some <==> utc_representable(secs as int, nanos as int),
            r matches Some(t) ==> t.secs() == secs && t.nanos() == nanos,
    {
        if representable(secs, nanos) {
            Some(Instant { secs, nanos })
        } else {
            None
        }
    }
}

/// Whether `DateTime::<Utc>::from_timestamp(secs, nanos)` gives a time; that is what
/// [`utc_representable`] names.
#[verifier::external_body]
fn representable(secs: i64, nanos: u32) -> (b: bool)
    ensures
        b == utc_representable(secs as int, nanos as int),
{
    DateTime::<Utc>::from_timestamp(secs, nanos).is_some()
}

/// `a` is not later than `b`.
pub open spec fn instant_le(a: Instant, b: Instant) -> bool {
    a.secs() < b.secs() || (a.secs() == b.secs() && a.nanos() <= b.nanos())
}

/// The instant for a timestamp pair that the date library produced.
pub open spec fn instant_is(t: Instant, p: (int, int)) -> bool {
    t.secs() == p.0 && t.nanos() == p.1
}

/// Parses an RFC 3339 date and time (`DateTime::parse_from_rfc3339`), as a UTC instant.
#[verifier::external_body]
pub(crate) fn parse_rfc3339(s: &str) -> (r: Option<Instant>)
    ensures
        r is Some <==> rfc3339_instant(s@) is Some,
        r matches Some(t) ==> instant_is(t, rfc3339_instant(s@)->0),
{
    match DateTime::parse_from_rfc3339(s) {
        Ok(dt) => Some(Instant { secs: dt.timestamp(), nanos: dt.timestamp_subsec_nanos() }),
        Err(_) => None,
    }
}

/// Parses `s` with the format `%Y-%m-%dT%H:%M:%S%.fZ` (`DateTime::parse_from_str`), as a UTC
/// instant.
#[verifier::external_body]
pub(crate) fn parse_fractional_z(s: &str) -> (r: Option<Instant>)
    ensures
        r is Some <==> fractional_z_instant(s@) is Some,
        r matches Some(t) ==> instant_is(t, fractional_z_instant(s@)->0),
{
    match DateTime::parse_from_str(s, "%Y-%m-%dT%H:%M:%S%.fZ") {
        Ok(dt) => Some(Instant { secs: dt.timestamp(), nanos: dt.timestamp_subsec_nanos() }),
        Err(_) => None,
    }
}

/// The current UTC time (`Utc::now`). Nothing is claimed of the value but that the date library
/// can represent it.
#[verifier::external_body]
pub(crate) fn utc_now() -> (t: Instant) {
    let now = Utc::now();
    Instant { secs: now.timestamp(), nanos: now.timestamp_subsec_nanos() }
}

/// The calendar year of `t` (`Datelike::year`).
#[verifier::external_body]
pub(crate) fn year_of(t: &Instant) -> (y: i32)
    ensures
        y == utc_year(t.secs(), t.nanos()),
{
    DateTime::<Utc>::from_timestamp(t.secs, t.nanos).unwrap().year()
}

/// The calendar month of `t` (`Datelike::month`), from 1 to 12.
#[verifier::external_body]
pub(crate) fn month_of(t: &Instant) -> (m: u32)
    ensures
        m == utc_month(t.secs(), t.nanos()),
        1 <= m <= 12,
{
    DateTime::<Utc>::from_timestamp(t.secs, t.nanos).unwrap().month()
}

/// The ISO 8601 week-numbering year of `t`'s date (`IsoWeek::year`).
#[verifier::external_body]
pub(crate) fn iso_year_of(t: &Instant) -> (y: i32)
    ensures
        y == utc_iso_year(t.secs(), t.nanos()),
{
    DateTime::<Utc>::from_timestamp(t.secs, t.nanos).unwrap().iso_week().year()
}

/// The ISO 8601 week number of `t`'s date (`IsoWeek::week`), from 1 to 53.
#[verifier::external_body]
pub(crate) fn iso_week_of(t: &Instant) -> (w: u32)
    ensures
        w == utc_iso_week(t.secs(), t.nanos()),
        1 <= w <= 53,
{
    DateTime::<Utc>::from_timestamp(t.secs, t.nanos).unwrap().iso_week().week()
}

/// `t` moved `ms` milliseconds into the past (`checked_sub_signed`), if the result can be
/// represented. Outside a leap second the result is exactly `ms` milliseconds earlier.
#[verifier::external_body]
pub(crate) fn checked_sub_millis(t: &Instant, ms: i64) -> (r: Option<Instant>)
    requires
        ms > i64::MIN,
    ensures
        r is Some <==> utc_minus_millis(t.secs(), t.nanos(), ms as int) is Some,
        r matches Some(u) ==> instant_is(u, utc_minus_millis(t.secs(), t.nanos(), ms as int)->0),
        t.nanos() < 1_000_000_000 ==> (r matches Some(u) ==> u.nanos() < 1_000_000_000
            && u.secs() * 1_000_000_000 + u.nanos() == t.secs() * 1_000_000_000 + t.nanos()
            - ms * 1_000_000),
{
    let dt = DateTime::<Utc>::from_timestamp(t.secs, t.nanos).unwrap();
    match dt.checked_sub_signed(TimeDelta::milliseconds(ms)) {
        Some(u) => Some(Instant { secs: u.timestamp(), nanos: u.timestamp_subsec_nanos() }),
        None => None,
    }
}

/// `t` written as RFC 3339 (`to_rfc3339`).
#[verifier::external_body]
pub(crate) fn rfc3339_text(t: &Instant) -> (s: String)
    ensures
        s@ == utc_rfc3339(t.secs(), t.nanos()),
{
    DateTime::<Utc>::from_timestamp(t.secs, t.nanos).unwrap().to_rfc3339()
}

/// Milliseconds since the UNIX epoch, not counting leap seconds (`timestamp_millis`).
#[verifier::external_body]
pub(crate) fn timestamp_millis(t: &Instant) -> (ms: i64)
    ensures
        ms == t.secs() * 1000 + t.nanos() / 1_000_000,
{
    DateTime::<Utc>::from_timestamp(t.secs, t.nanos).unwrap().timestamp_millis()
}

} // verus!
