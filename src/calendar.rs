//! Resolution of the start and end that a calendar entry gives into an
//! event time.
use vstd::prelude::*;
use crate::model::{date_le, date_le_spec, Date, DateTime, EventTime};
use crate::text::same_text;
use chrono::{Datelike, Offset, TimeZone};

verus! {

/// The earliest year of the calendar arithmetic used here.
pub const MIN_YEAR: i32 = -262143;

/// The latest year of the calendar arithmetic used here.
pub const MAX_YEAR: i32 = 262142;

pub open spec fn is_leap(y: int) -> bool {
    (y % 4 == 0 && y % 100 != 0) || y % 400 == 0
}

pub open spec fn days_in_month(y: int, m: int) -> int {
    if m == 2 {
        if is_leap(y) { 29 } else { 28 }
    } else if m == 4 || m == 6 || m == 9 || m == 11 {
        30
    } else {
        31
    }
}

/// A date that exists in the proleptic Gregorian calendar, within the years
/// supported.
pub open spec fn valid_date(d: Date) -> bool {
    MIN_YEAR <= d.year <= MAX_YEAR && 1 <= d.month <= 12 && 1 <= d.day <= days_in_month(d.year as int, d.month as int)
}

/// The first day of the earliest year, the one date without a previous day.
pub open spec fn is_first_day(d: Date) -> bool {
    d.year == MIN_YEAR && d.month == 1 && d.day == 1
}

/// The day before a date.
pub open spec fn day_before(d: Date) -> Date {
    if d.day > 1 {
        Date { day: (d.day - 1) as u32, ..d }
    } else if d.month > 1 {
        Date { month: (d.month - 1) as u32, day: days_in_month(d.year as int, d.month - 1) as u32, ..d }
    } else {
        Date { year: (d.year - 1) as i32, month: 12, day: 31 }
    }
}

/// Relies on chrono's `NaiveDate::pred_opt`: the previous day, which exists
/// for every valid date but the first day of the earliest year.
#[verifier::external_body]
fn previous_day(d: Date) -> (r: Date)
    requires
        valid_date(d),
        !is_first_day(d),
    ensures
        r == day_before(d),
{
    let p = chrono::NaiveDate::from_ymd_opt(d.year, d.month, d.day).unwrap().pred_opt().unwrap();
    Date { year: p.year(), month: p.month(), day: p.day() }
}

/// The offset from UTC, in seconds, that a zone of the time-zone database
/// gives a local time, when the zone is known and the local time maps to
/// exactly one instant.
pub uninterp spec fn zone_offset(zone: Seq<char>, year: int, month: int, day: int, hour: int, minute: int, second: int) -> Option<i32>;

/// Relies on chrono-tz's `Tz` parsed from its name and chrono's
/// `TimeZone::from_local_datetime(..).single()`: the offset of the one
/// instant that the local time names in the zone.
#[verifier::external_body]
pub(crate) fn offset_in_zone(zone: &str, t: LocalTime) -> (r: Option<i32>)
    ensures
        r == zone_offset(zone@, t.date.year as int, t.date.month as int, t.date.day as int, t.hour as int,
            t.minute as int, t.second as int),
{
    let tz: chrono_tz::Tz = zone.parse().ok()?;
    let naive = chrono::NaiveDate::from_ymd_opt(t.date.year, t.date.month, t.date.day)?.and_hms_opt(t.hour, t.minute, t.second)?;
    tz.from_local_datetime(&naive).single().map(|x| x.offset().fix().local_minus_utc())
}

/// A local date and time without an offset.
#[derive(Clone, Copy, Debug, PartialEq, Eq, Structural)]
pub struct LocalTime {
    pub date: Date,
    pub hour: u32,
    pub minute: u32,
    pub second: u32,
}

/// One end of a calendar entry, as the feed gives it.
pub enum RawTime {
    /// A whole day.
    Date(Date),
    /// A local time in a named zone.
    Zoned(LocalTime, String),
    /// A local time without a zone.
    Floating(LocalTime),
}

/// Why a calendar entry's times could not be resolved.
#[derive(Clone, Copy, Debug, PartialEq, Eq, Structural)]
pub enum TimeError {
    /// A date that does not exist, or lies outside the supported years.
    InvalidDate,
    /// A zone other than the one the source is expected to use.
    UnexpectedZone,
    /// A local time that names no single instant in its zone.
    AmbiguousTime,
    /// One end a whole day and the other a time.
    Mismatched,
    /// The end comes before the start.
    EndBeforeStart,
}

pub fn is_valid_date(d: Date) -> (r: bool)
    ensures
        r == valid_date(d),
{
    if d.year < MIN_YEAR || d.year > MAX_YEAR || d.month < 1 || d.month > 12 || d.day < 1 {
        return false;
    }
    let leap = (d.year % 4 == 0 && d.year % 100 != 0) || d.year % 400 == 0;
    let dim: u32 = if d.month == 2 {
        if leap { 29 } else { 28 }
    } else if d.month == 4 || d.month == 6 || d.month == 9 || d.month == 11 {
        30
    } else {
        31
    };
    d.day <= dim
}

/// The time that the zone's offset gives a local time.
pub open spec fn zoned_spec(t: LocalTime, zone: Seq<char>) -> Option<DateTime> {
    match zone_offset(zone, t.date.year as int, t.date.month as int, t.date.day as int, t.hour as int, t.minute as int,
        t.second as int) {
        Some(o) => Some(DateTime { date: t.date, hour: t.hour, minute: t.minute, second: t.second, offset_seconds: o }),
        None => None,
    }
}

/// A count of days that grows by one from each date to the next, over the
/// valid dates: the days since a fixed day long before the earliest year.
pub open spec fn epoch_days(d: Date) -> int {
    let y = d.year + 400000 - (if d.month <= 2 { 1int } else { 0int });
    let mp = if d.month > 2 { d.month - 3 } else { d.month + 9 };
    365 * y + y / 4 - y / 100 + y / 400 + (153 * mp + 2) / 5 + d.day - 1
}

/// The seconds from a fixed instant to the instant that a date and time
/// with its offset name.
pub open spec fn instant(t: DateTime) -> int {
    epoch_days(t.date) * 86400 + t.hour * 3600 + t.minute * 60 + t.second - t.offset_seconds
}

fn instant_exec(t: DateTime) -> (r: i64)
    requires
        valid_date(t.date),
    ensures
        r == instant(t),
{
    let y: u64 = (t.date.year as i64 + 400000 - if t.date.month <= 2 { 1i64 } else { 0i64 }) as u64;
    let mp: u64 = if t.date.month > 2 { t.date.month as u64 - 3 } else { t.date.month as u64 + 9 };
    let days: u64 = 365 * y + y / 4 - y / 100 + y / 400 + (153 * mp + 2) / 5 + t.date.day as u64 - 1;
    (days as i64) * 86400 + (t.hour as i64) * 3600 + (t.minute as i64) * 60 + t.second as i64 - t.offset_seconds as i64
}

/// A timed end: its local time and the zone it is in. A time that the feed
/// gives without a zone is in the source's own zone.
pub open spec fn timed(t: RawTime, zone: Seq<char>) -> (LocalTime, Seq<char>) {
    match t {
        RawTime::Zoned(l, z) => (l, z@),
        RawTime::Floating(l) => (l, zone),
        RawTime::Date(d) => (LocalTime { date: d, hour: 0, minute: 0, second: 0 }, zone),
    }
}

/// What a start and an end resolve to, for a source that uses `zone`.
pub open spec fn resolve_spec(start: RawTime, end: RawTime, zone: Seq<char>) -> Result<EventTime, TimeError> {
    match (start, end) {
        (RawTime::Date(s), RawTime::Date(e)) => if valid_date(s) && valid_date(e) && !is_first_day(e) {
            if date_le_spec(s, day_before(e)) {
                Ok(EventTime::DateOnly { start_date: s, end_date: day_before(e) })
            } else {
                Err(TimeError::EndBeforeStart)
            }
        } else {
            Err(TimeError::InvalidDate)
        },
        (RawTime::Date(_), _) => Err(TimeError::Mismatched),
        (_, RawTime::Date(_)) => Err(TimeError::Mismatched),
        _ => {
            let (s, sz) = timed(start, zone);
            let (e, ez) = timed(end, zone);
            if sz != zone || ez != zone {
                Err(TimeError::UnexpectedZone)
            } else if !valid_date(s.date) || !valid_date(e.date) {
                Err(TimeError::InvalidDate)
            } else {
                match (zoned_spec(s, zone), zoned_spec(e, zone)) {
                    (Some(a), Some(b)) => if instant(a) <= instant(b) {
                        Ok(EventTime::DateTime { start: a, end: b })
                    } else {
                        Err(TimeError::EndBeforeStart)
                    },
                    _ => Err(TimeError::AmbiguousTime),
                }
            }
        },
    }
}

fn timed_exec(t: &RawTime, zone: &str) -> (r: (LocalTime, bool))
    requires
        !(t is Date),
    ensures
        r.0 == timed(*t, zone@).0,
        r.1 == (timed(*t, zone@).1 == zone@),
{
    match t {
        RawTime::Zoned(l, z) => (*l, same_text(z.as_str(), zone)),
        RawTime::Floating(l) => (*l, true),
        RawTime::Date(d) => (LocalTime { date: *d, hour: 0, minute: 0, second: 0 }, true),
    }
}

/// Resolves the start and end of a calendar entry. Whole days become a
/// date range whose exclusive end is turned inclusive by taking the day
/// before. Times must both be in `zone` (a time without a zone is taken to
/// be in it), and each must name a single instant there. The end may not
/// come before the start.
pub fn resolve_time(start: &RawTime, end: &RawTime, zone: &str) -> (r: Result<EventTime, TimeError>)
    ensures
        r == resolve_spec(*start, *end, zone@),
{
    match (start, end) {
        (RawTime::Date(s), RawTime::Date(e)) => {
            if is_valid_date(*s) && is_valid_date(*e) && !(e.year == MIN_YEAR && e.month == 1 && e.day == 1) {
                let last = previous_day(*e);
                if date_le(*s, last) {
                    Ok(EventTime::DateOnly { start_date: *s, end_date: last })
                } else {
                    Err(TimeError::EndBeforeStart)
                }
            } else {
                Err(TimeError::InvalidDate)
            }
        },
        (RawTime::Date(_), _) => Err(TimeError::Mismatched),
        (_, RawTime::Date(_)) => Err(TimeError::Mismatched),
        _ => {
            let (s, sok) = timed_exec(start, zone);
            let (e, eok) = timed_exec(end, zone);
            if !sok || !eok {
                return Err(TimeError::UnexpectedZone);
            }
            if !is_valid_date(s.date) || !is_valid_date(e.date) {
                return Err(TimeError::InvalidDate);
            }
            let a = offset_in_zone(zone, s);
            let b = offset_in_zone(zone, e);
            match (a, b) {
                (Some(x), Some(y)) => {
                    let sa = DateTime { date: s.date, hour: s.hour, minute: s.minute, second: s.second, offset_seconds: x };
                    let eb = DateTime { date: e.date, hour: e.hour, minute: e.minute, second: e.second, offset_seconds: y };
                    if instant_exec(sa) <= instant_exec(eb) {
                        Ok(EventTime::DateTime { start: sa, end: eb })
                    } else {
                        Err(TimeError::EndBeforeStart)
                    }
                },
                _ => Err(TimeError::AmbiguousTime),
            }
        },
    }
}

/// For every whole-day entry, the resolved end date is the day before the
/// upstream (exclusive) end date.
pub proof fn lemma_whole_day_end_inclusive(s: Date, e: Date, zone: Seq<char>)
    requires
        valid_date(s),
        valid_date(e),
        !is_first_day(e),
        date_le_spec(s, day_before(e)),
    ensures
        resolve_spec(RawTime::Date(s), RawTime::Date(e), zone) == Ok::<EventTime, TimeError>(
            EventTime::DateOnly { start_date: s, end_date: day_before(e) }),
{
}

} // verus!
