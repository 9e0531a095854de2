//! Points in time, calendar fields, and the calls into `chrono` that turn one
//! into the other.

use chrono::{Datelike, Local, MappedLocalTime, NaiveDate, NaiveTime, TimeZone};
use vstd::prelude::*;

verus! {

/// Nanoseconds in one second.
pub const NANOS_PER_SEC: i128 = 1_000_000_000;

/// A point in time: the whole seconds since the Unix epoch (UTC), and the
/// nanoseconds past that second.
///
/// Two timestamps are compared by [`Timestamp::instant`], the count of
/// nanoseconds since the epoch.
#[derive(Debug, Clone, Copy, PartialEq, Eq, Structural, Hash)]
pub struct Timestamp {
    pub secs: i64,
    pub nanos: u32,
}

impl Timestamp {
    /// Nanoseconds from the Unix epoch to this point in time.
    pub open spec fn instant(self) -> int {
        self.secs * 1_000_000_000 + self.nanos
    }

    /// The point in time `nanos` nanoseconds after second `secs` of the
    /// Unix epoch.
    pub fn new(secs: i64, nanos: u32) -> (t: Timestamp)
        ensures
            t.secs == secs,
            t.nanos == nanos,
    {
        Timestamp { secs, nanos }
    }

    /// Nanoseconds from the Unix epoch to this point in time.
    pub fn nanos_since_epoch(&self) -> (n: i128)
        ensures
            n == self.instant(),
    {
        (self.secs as i128) * NANOS_PER_SEC + (self.nanos as i128)
    }

    /// Nanoseconds from `earlier` to this point in time; negative when
    /// `earlier` is in fact later.
    pub fn nanos_since(&self, earlier: &Timestamp) -> (n: i128)
        ensures
            n == self.instant() - earlier.instant(),
    {
        self.nanos_since_epoch() - earlier.nanos_since_epoch()
    }

    /// Whether this point in time lies strictly before `other`.
    pub fn is_before(&self, other: &Timestamp) -> (b: bool)
        ensures
            b == (self.instant() < other.instant()),
    {
        self.nanos_since_epoch() < other.nanos_since_epoch()
    }
}

/// The date and time of day that a log line states, without year and zone.
#[derive(Debug, Clone, Copy, PartialEq, Eq, Structural)]
pub struct CivilTime {
    pub month: u32,
    pub day: u32,
    pub hour: u32,
    pub minute: u32,
    pub second: u32,
}

/// The first year that `chrono::NaiveDate` can hold.
pub const MIN_YEAR: i32 = -262143;

/// The last year that `chrono::NaiveDate` can hold.
pub const MAX_YEAR: i32 = 262142;

/// The year has a 29th of February in the proleptic Gregorian calendar.
pub open spec fn is_leap_year(year: int) -> bool {
    year % 4 == 0 && (year % 100 != 0 || year % 400 == 0)
}

/// Days of `month` (1 to 12) in `year` of the proleptic Gregorian calendar.
pub open spec fn days_in_month(year: int, month: int) -> int {
    if month == 2 {
        if is_leap_year(year) {
            29
        } else {
            28
        }
    } else if month == 4 || month == 6 || month == 9 || month == 11 {
        30
    } else {
        31
    }
}

/// The day exists in the calendar, in a year that `chrono::NaiveDate` can hold.
pub open spec fn is_calendar_date(year: int, month: int, day: int) -> bool {
    &&& MIN_YEAR <= year <= MAX_YEAR
    &&& 1 <= month <= 12
    &&& 1 <= day <= days_in_month(year, month)
}

/// The time of day exists: an hour below 24, a minute and a second below 60.
pub open spec fn is_time_of_day(hour: int, minute: int, second: int) -> bool {
    0 <= hour < 24 && 0 <= minute < 60 && 0 <= second < 60
}

/// How many of the years before `year` are leap years, counted from a fixed
/// year far back; only differences of two such counts are used.
pub open spec fn leap_years_before(year: int) -> int {
    (year - 1) / 4 - (year - 1) / 100 + (year - 1) / 400
}

/// Days from 1 January 1970 to 1 January of `year`; negative before 1970.
pub open spec fn days_before_year(year: int) -> int {
    365 * (year - 1970) + leap_years_before(year) - leap_years_before(1970)
}

/// Days from 1 January of `year` to the first of `month` (1 to 12).
pub open spec fn days_before_month(year: int, month: int) -> int {
    let leap: int = if is_leap_year(year) {
        1
    } else {
        0
    };
    if month == 2 {
        31
    } else if month == 3 {
        59 + leap
    } else if month == 4 {
        90 + leap
    } else if month == 5 {
        120 + leap
    } else if month == 6 {
        151 + leap
    } else if month == 7 {
        181 + leap
    } else if month == 8 {
        212 + leap
    } else if month == 9 {
        243 + leap
    } else if month == 10 {
        273 + leap
    } else if month == 11 {
        304 + leap
    } else if month == 12 {
        334 + leap
    } else {
        0
    }
}

/// Seconds from the start of 1970 to the date and time of day that `t`
/// states in `year`, by the proleptic Gregorian calendar and with 86 400
/// seconds in every day. This is the Unix time at which a clock set to UTC
/// shows that date and time.
pub open spec fn civil_seconds(year: int, t: CivilTime) -> int {
    (days_before_year(year) + days_before_month(year, t.month as int) + t.day - 1) * 86_400
        + t.hour * 3_600 + t.minute * 60 + t.second
}

/// The date and the time of day that `t` states exist in `year`.
pub open spec fn exists_in(year: int, t: CivilTime) -> bool {
    is_calendar_date(year, t.month as int, t.day as int) && is_time_of_day(
        t.hour as int,
        t.minute as int,
        t.second as int,
    )
}

/// Days of `year`: 366 in a leap year, else 365.
pub open spec fn days_in_year(year: int) -> int {
    if is_leap_year(year) {
        366
    } else {
        365
    }
}

/// The years follow each other without a gap: the next year starts when the
/// days of this one are over.
proof fn lemma_next_year(year: int)
    ensures
        days_before_year(year + 1) == days_before_year(year) + days_in_year(year),
{
    assert(year / 4 - (year - 1) / 4 == if year % 4 == 0 { 1int } else { 0int });
    assert(year / 100 - (year - 1) / 100 == if year % 100 == 0 { 1int } else { 0int });
    assert(year / 400 - (year - 1) / 400 == if year % 400 == 0 { 1int } else { 0int });
    assert(year % 400 == 0 ==> year % 100 == 0);
    assert(year % 100 == 0 ==> year % 4 == 0);
}

/// A later year starts after the earlier year is over.
proof fn lemma_later_year(earlier: int, later: int)
    requires
        earlier < later,
    ensures
        days_before_year(later) >= days_before_year(earlier) + days_in_year(earlier),
    decreases later - earlier,
{
    if earlier + 1 == later {
        lemma_next_year(earlier);
    } else {
        lemma_later_year(earlier, later - 1);
        lemma_next_year(later - 1);
    }
}

/// The days of a year are numbered from 0 to one less than its length.
pub open spec fn day_in_year(year: int, month: int, day: int) -> int {
    days_before_month(year, month) + day - 1
}

/// A date that exists has its day within the year.
proof fn lemma_day_in_year_bounds(year: int, month: int, day: int)
    requires
        1 <= month <= 12,
        1 <= day <= days_in_month(year, month),
    ensures
        0 <= day_in_year(year, month, day) < days_in_year(year),
{
}

/// The months follow each other without a gap.
proof fn lemma_next_month(year: int, month: int)
    requires
        1 <= month < 12,
    ensures
        days_before_month(year, month + 1) == days_before_month(year, month) + days_in_month(
            year,
            month,
        ),
{
}

/// A later month starts after the earlier month is over.
proof fn lemma_later_month(year: int, earlier: int, later: int)
    requires
        1 <= earlier < later <= 12,
    ensures
        days_before_month(year, later) >= days_before_month(year, earlier) + days_in_month(
            year,
            earlier,
        ),
    decreases later - earlier,
{
    if earlier + 1 == later {
        lemma_next_month(year, earlier);
    } else {
        lemma_later_month(year, earlier, later - 1);
        lemma_next_month(year, later - 1);
    }
}

/// The number of a day within its year tells the month and the day.
proof fn lemma_day_in_year_tells_date(year: int, m1: int, d1: int, m2: int, d2: int)
    requires
        1 <= m1 <= 12,
        1 <= d1 <= days_in_month(year, m1),
        1 <= m2 <= 12,
        1 <= d2 <= days_in_month(year, m2),
        day_in_year(year, m1, d1) == day_in_year(year, m2, d2),
    ensures
        m1 == m2,
        d1 == d2,
{
    if m1 < m2 {
        lemma_later_month(year, m1, m2);
    }
    if m2 < m1 {
        lemma_later_month(year, m2, m1);
    }
}

/// Days and seconds within the day are told apart by their sum in seconds.
proof fn lemma_days_and_seconds(day_a: int, time_a: int, day_b: int, time_b: int)
    requires
        0 <= time_a < 86_400,
        0 <= time_b < 86_400,
        day_a * 86_400 + time_a == day_b * 86_400 + time_b,
    ensures
        day_a == day_b,
        time_a == time_b,
{
}

/// The seconds within a day tell the hour, the minute and the second.
proof fn lemma_seconds_tell_time(h1: int, m1: int, s1: int, h2: int, m2: int, s2: int)
    requires
        is_time_of_day(h1, m1, s1),
        is_time_of_day(h2, m2, s2),
        h1 * 3_600 + m1 * 60 + s1 == h2 * 3_600 + m2 * 60 + s2,
    ensures
        h1 == h2,
        m1 == m2,
        s1 == s2,
{
}

/// No two dates and times of day that exist are the same number of seconds
/// from 1970: the seconds tell the year, the month, the day, the hour, the
/// minute and the second.
pub proof fn lemma_civil_seconds_tell_all(y1: int, a: CivilTime, y2: int, b: CivilTime)
    requires
        exists_in(y1, a),
        exists_in(y2, b),
        civil_seconds(y1, a) == civil_seconds(y2, b),
    ensures
        y1 == y2,
        a == b,
{
    let in_year_a = day_in_year(y1, a.month as int, a.day as int);
    let in_year_b = day_in_year(y2, b.month as int, b.day as int);
    let time_a = a.hour * 3_600 + a.minute * 60 + a.second;
    let time_b = b.hour * 3_600 + b.minute * 60 + b.second;
    lemma_days_and_seconds(
        days_before_year(y1) + in_year_a,
        time_a,
        days_before_year(y2) + in_year_b,
        time_b,
    );
    lemma_seconds_tell_time(
        a.hour as int,
        a.minute as int,
        a.second as int,
        b.hour as int,
        b.minute as int,
        b.second as int,
    );
    lemma_day_in_year_bounds(y1, a.month as int, a.day as int);
    lemma_day_in_year_bounds(y2, b.month as int, b.day as int);
    if y1 < y2 {
        lemma_later_year(y1, y2);
    }
    if y2 < y1 {
        lemma_later_year(y2, y1);
    }
    lemma_day_in_year_tells_date(y1, a.month as int, a.day as int, b.month as int, b.day as int);
}

fn count_leap_years_before(year: i32) -> (n: i128)
    ensures
        n == leap_years_before(year as int),
{
    // The year before, moved up by a multiple of 400 years so that it is not
    // negative: 400 years hold 100, 4 and 1 of the three kinds of year.
    let moved: i128 = (year as i128) - 1 + 2_147_484_000;
    let by_4: i128 = moved / 4 - 536_871_000;
    let by_100: i128 = moved / 100 - 21_474_840;
    let by_400: i128 = moved / 400 - 5_368_710;
    assert(by_4 == (year - 1) / 4);
    assert(by_100 == (year - 1) / 100);
    assert(by_400 == (year - 1) / 400);
    by_4 - by_100 + by_400
}

fn has_leap_day(year: i32) -> (b: bool)
    ensures
        b == is_leap_year(year as int),
{
    let moved: i128 = (year as i128) + 2_147_484_000;
    assert(moved % 4 == (year as int) % 4);
    assert(moved % 100 == (year as int) % 100);
    assert(moved % 400 == (year as int) % 400);
    moved % 4 == 0 && (moved % 100 != 0 || moved % 400 == 0)
}

fn count_days_before_month(year: i32, month: u32) -> (n: i128)
    ensures
        n == days_before_month(year as int, month as int),
        0 <= n <= 335,
{
    let leap: i128 = if has_leap_day(year) {
        1
    } else {
        0
    };
    if month == 2 {
        31
    } else if month == 3 {
        59 + leap
    } else if month == 4 {
        90 + leap
    } else if month == 5 {
        120 + leap
    } else if month == 6 {
        151 + leap
    } else if month == 7 {
        181 + leap
    } else if month == 8 {
        212 + leap
    } else if month == 9 {
        243 + leap
    } else if month == 10 {
        273 + leap
    } else if month == 11 {
        304 + leap
    } else if month == 12 {
        334 + leap
    } else {
        0
    }
}

/// Seconds from the start of 1970 to the date and time of day that `fields`
/// states in `year`, as a clock set to UTC shows them.
pub fn civil_seconds_of(year: i32, fields: &CivilTime) -> (r: i128)
    ensures
        r == civil_seconds(year as int, *fields),
{
    let leaps = count_leap_years_before(year);
    assert(leap_years_before(1970) == 477);
    let days: i128 = 365 * ((year as i128) - 1970) + leaps - 477 + count_days_before_month(
        year,
        fields.month,
    ) + (fields.day as i128) - 1;
    days * 86_400 + (fields.hour as i128) * 3_600 + (fields.minute as i128) * 60 + (
    fields.second as i128)
}

/// `chrono::NaiveDate`: a calendar date. Nothing is read from its values.
#[verifier::external_type_specification]
#[verifier::external_body]
pub struct ExNaiveDate(NaiveDate);

/// `chrono::NaiveTime`: a time of day. Nothing is read from its values.
#[verifier::external_type_specification]
#[verifier::external_body]
pub struct ExNaiveTime(NaiveTime);


/// `chrono::NaiveDate::from_ymd_opt` gives a date exactly when the day exists
/// in the calendar and the year is in the range that the type holds.
pub assume_specification[ NaiveDate::from_ymd_opt ](year: i32, month: u32, day: u32) -> (r:
    Option<NaiveDate>)
    ensures
        r is Some <==> is_calendar_date(year as int, month as int, day as int),
;

/// `chrono::NaiveTime::from_hms_opt` gives a time of day exactly when the hour
/// is below 24 and minute and second are below 60.
pub assume_specification[ NaiveTime::from_hms_opt ](hour: u32, min: u32, sec: u32) -> (r: Option<
    NaiveTime,
>)
    ensures
        r is Some <==> is_time_of_day(hour as int, min as int, sec as int),
;

/// Reads the wall clock with `chrono::Local::now`. Nothing is claimed of the
/// reading: two calls may give any two values. The call takes nothing from
/// the library; it gives up only where the machine's clock or zone cannot
/// be read.
#[verifier::external_body]
pub(crate) fn clock_now() -> Timestamp {
    let now = Local::now();
    Timestamp { secs: now.timestamp(), nanos: now.timestamp_subsec_nanos() }
}

/// The time of an event: its own where it has one, else the clock's.
pub open spec fn time_or(ts: Option<Timestamp>, clock: Timestamp) -> Timestamp {
    match ts {
        Some(t) => t,
        None => clock,
    }
}

/// The time of an event: its own where it has one; else the clock is read.
pub fn event_time(ts: Option<Timestamp>) -> (t: Timestamp)
    ensures
        ts matches Some(own) ==> t == own,
{
    match ts {
        Some(t) => t,
        None => clock_now(),
    }
}

/// The calendar year of `chrono::Local::now` in the local zone. Nothing is
/// claimed of it.
#[verifier::external_body]
pub(crate) fn current_year() -> i32 {
    Local::now().year()
}

/// A point in time as a zone shows it: the instant, and how many seconds the
/// zone's clocks are ahead of UTC at that instant.
#[derive(Debug, Clone, Copy, PartialEq, Eq, Structural)]
pub struct LocalInstant {
    pub at: Timestamp,
    pub offset_secs: i32,
}

impl LocalInstant {
    /// The instant is one at which a clock that is `offset_secs` ahead of
    /// UTC, by less than a day either way, shows the date and time of day
    /// that `t` states in `year`, to the second.
    pub open spec fn shows(self, year: int, t: CivilTime) -> bool {
        &&& -86_400 < self.offset_secs < 86_400
        &&& self.at.nanos == 0
        &&& self.at.secs + self.offset_secs == civil_seconds(year, t)
    }
}

/// The point in time is one at which the clocks of some zone, less than a
/// day ahead of UTC or behind it, show the date and time of day that `t`
/// states in `year`.
pub open spec fn shown_at(at: Timestamp, year: int, t: CivilTime) -> bool {
    exists|offset_secs: i32| (LocalInstant { at, offset_secs }).shows(year, t)
}

/// What a wall-clock time means in a zone whose clocks are turned forward
/// and back.
#[derive(Debug, Clone, Copy, PartialEq, Eq, Structural)]
pub enum LocalTime {
    /// The wall clock shows the time once, at this point in time.
    Single(LocalInstant),
    /// The wall clock shows the time twice, at these two points in time, the
    /// earlier first: the clocks were turned back.
    Ambiguous(LocalInstant, LocalInstant),
    /// The wall clock never shows the time: the clocks were turned forward
    /// over it. Also where the zone could not be asked.
    Missing,
}

impl LocalTime {
    /// The point in time meant, where there is exactly one. A time that
    /// occurs twice is not guessed at.
    pub open spec fn spec_single(self) -> Option<Timestamp> {
        match self {
            LocalTime::Single(i) => Some(i.at),
            LocalTime::Ambiguous(_, _) => None,
            LocalTime::Missing => None,
        }
    }

    /// The point in time meant, where there is exactly one.
    pub fn single(&self) -> (r: Option<Timestamp>)
        ensures
            r == self.spec_single(),
    {
        match self {
            LocalTime::Single(i) => Some(i.at),
            LocalTime::Ambiguous(_, _) => None,
            LocalTime::Missing => None,
        }
    }

    /// Every point in time that is meant is one at which the zone shows the
    /// date and time of day that `t` states in `year`.
    pub open spec fn shows(self, year: int, t: CivilTime) -> bool {
        match self {
            LocalTime::Single(i) => i.shows(year, t),
            LocalTime::Ambiguous(a, b) => a.shows(year, t) && b.shows(year, t),
            LocalTime::Missing => true,
        }
    }
}

/// Reads the date and time of day as wall-clock time in the machine's zone,
/// with `chrono::TimeZone::with_ymd_and_hms` on `chrono::Local`.
///
/// Whether the zone shows that time once, twice or never depends on the
/// machine, and nothing is claimed of it. What is claimed holds in every
/// zone. Chrono reads the fields by the proleptic Gregorian calendar, with
/// whole seconds, and gets each instant by taking the zone's offset off that
/// wall-clock time; an offset is less than a day. So each instant that comes
/// back, with its offset added, is the wall-clock time counted in seconds
/// from 1970. Fields that do not exist give `Missing`.
#[verifier::external_body]
pub(crate) fn resolve_local(year: i32, fields: &CivilTime) -> (r: LocalTime)
    ensures
        r.shows(year as int, *fields),
{
    let at = |t: chrono::DateTime<Local>| LocalInstant {
        at: Timestamp { secs: t.timestamp(), nanos: t.timestamp_subsec_nanos() },
        offset_secs: t.offset().local_minus_utc(),
    };
    let (month, day) = (fields.month, fields.day);
    match Local.with_ymd_and_hms(year, month, day, fields.hour, fields.minute, fields.second) {
        MappedLocalTime::Single(t) => LocalTime::Single(at(t)),
        MappedLocalTime::Ambiguous(a, b) => LocalTime::Ambiguous(at(a), at(b)),
        MappedLocalTime::None => LocalTime::Missing,
    }
}

/// The point in time at which the local wall clock shows `fields` in `year`.
///
/// `None` where the date or the time of day does not exist, and where the
/// local zone skips that wall-clock time or shows it twice. A point in time
/// that is returned is one at which the clocks of a zone show that date
/// and time.
pub fn local_timestamp(year: i32, fields: &CivilTime) -> (r: Option<Timestamp>)
    ensures
        r matches Some(t) ==> {
            &&& is_calendar_date(year as int, fields.month as int, fields.day as int)
            &&& is_time_of_day(fields.hour as int, fields.minute as int, fields.second as int)
            &&& shown_at(t, year as int, *fields)
        },
{
    if NaiveDate::from_ymd_opt(year, fields.month, fields.day).is_none() {
        return None;
    }
    if NaiveTime::from_hms_opt(fields.hour, fields.minute, fields.second).is_none() {
        return None;
    }
    let resolution = resolve_local(year, fields);
    proof {
        if let LocalTime::Single(i) = resolution {
            assert((LocalInstant { at: i.at, offset_secs: i.offset_secs }).shows(
                year as int,
                *fields,
            ));
        }
    }
    resolution.single()
}

} // verus!
