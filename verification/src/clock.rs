//! The fixed local offset (UTC+7) that every timestamp in the system is
//! stated in: reading the wall clock, validating its fields against the
//! Gregorian calendar, and computing the retention cutoff date.

use vstd::prelude::*;
use crate::codes::{date_chars, timestamp_chars, format_date, format_timestamp, lex_lt};
use chrono::{Datelike, Timelike};

verus! {

/// Rows older than this many days (by local calendar date) are swept.
pub const RETENTION_DAYS: u32 = 7;

/// Whether `y` is a leap year of the proleptic Gregorian calendar.
pub open spec fn leap_year(y: nat) -> bool {
    (y % 4 == 0 && y % 100 != 0) || y % 400 == 0
}

/// How many days the given month of the given year has.
pub open spec fn days_in_month(y: nat, m: nat) -> nat {
    if m == 2 {
        if leap_year(y) {
            29nat
        } else {
            28nat
        }
    } else if m == 4 || m == 6 || m == 9 || m == 11 {
        30nat
    } else {
        31nat
    }
}

/// Whether year, month and day form a real calendar date.
pub open spec fn valid_date(y: nat, m: nat, d: nat) -> bool {
    1 <= m <= 12 && 1 <= d <= days_in_month(y, m)
}

fn days_in_month_exec(y: u32, m: u32) -> (r: u32)
    requires
        1 <= m <= 12,
    ensures
        r as nat == days_in_month(y as nat, m as nat),
{
    if m == 2 {
        if (y % 4 == 0 && y % 100 != 0) || y % 400 == 0 {
            29
        } else {
            28
        }
    } else if m == 4 || m == 6 || m == 9 || m == 11 {
        30
    } else {
        31
    }
}

/// A wall-clock reading in the fixed UTC+7 offset, as the clock reported it.
/// During a leap second `milli` may exceed 999.
pub struct ClockReading {
    pub year: i32,
    pub month: u32,
    pub day: u32,
    pub hour: u32,
    pub minute: u32,
    pub second: u32,
    pub milli: u32,
}

/// Relies on std::time::SystemTime::now read through
/// chrono::DateTime::from_timestamp and converted with
/// chrono::FixedOffset::east_opt(7*3600): every step is checked, so the read
/// is total — `None` when the clock lies before the Unix epoch or beyond
/// chrono's date range. The field accessors document month in 1..=12, day in
/// 1..=31, hour in 0..=23, minute and second in 0..=59, and milliseconds at
/// most 1999 (leap seconds).
#[verifier::external_body]
fn chrono_now_utc7() -> (r: Option<ClockReading>)
    ensures
        r matches Some(c) ==> 1 <= c.month <= 12 && 1 <= c.day <= 31 && c.hour <= 23 && c.minute
            <= 59 && c.second <= 59 && c.milli <= 1999,
{
    let since_epoch = std::time::SystemTime::now().duration_since(std::time::UNIX_EPOCH).ok()?;
    let utc = chrono::DateTime::from_timestamp(
        since_epoch.as_secs() as i64,
        since_epoch.subsec_nanos(),
    )?;
    let t = utc.with_timezone(&chrono::FixedOffset::east_opt(7 * 3600).unwrap());
    let (year, month, day) = (t.year(), t.month(), t.day());
    let (hour, minute, second, milli) =
        (t.hour(), t.minute(), t.second(), t.timestamp_subsec_millis());
    Some(ClockReading { year, month, day, hour, minute, second, milli })
}

/// The calendar date `n` days before the given date, or `None` when the given
/// date is not a valid calendar date or the earlier date is out of range.
pub uninterp spec fn days_before(y: i32, m: u32, d: u32, n: u32) -> Option<(i32, u32, u32)>;

/// Relies on chrono::NaiveDate::checked_sub_days (with from_ymd_opt): the
/// result is the date `n` days earlier and depends on the arguments alone.
/// The accessors document month in 1..=12 and day in 1..=31. Subtracting a
/// nonnegative day count never yields a later date, so the result's year is
/// at most the input's, drops by at most one year per 365 days plus one, and
/// — years 0..=9999 written as fixed-width `YYYY-MM-DD` strings ordering as
/// their dates do — the input's date string is not below the result's.
/// For a real calendar date in years 0..=9999 and a window of at most ten
/// years the subtraction stays inside chrono's range, so it succeeds.
#[verifier::external_body]
fn chrono_days_before(y: i32, m: u32, d: u32, n: u32) -> (r: Option<(i32, u32, u32)>)
    ensures
        r == days_before(y, m, d, n),
        r matches Some(t) ==> 1 <= t.1 <= 12 && 1 <= t.2 <= 31,
        r matches Some(t) ==> t.0 <= y && t.0 as int >= y as int - 1 - n as int / 365,
        r matches Some(t) ==> ((0 <= t.0 && 0 <= y <= 9999 && m <= 99 && d <= 99) ==> !lex_lt(
            date_chars(y as nat, m as nat, d as nat),
            date_chars(t.0 as nat, t.1 as nat, t.2 as nat),
        )),
        (0 <= y <= 9999 && valid_date(y as nat, m as nat, d as nat) && n <= 3650) ==> r is Some,
{
    let date = match chrono::NaiveDate::from_ymd_opt(y, m, d) {
        Some(x) => x,
        None => return None,
    };
    let earlier = match date.checked_sub_days(chrono::Days::new(n as u64)) {
        Some(x) => x,
        None => return None,
    };
    Some((earlier.year(), earlier.month(), earlier.day()))
}

/// A timestamp in the fixed local offset, held as plain calendar fields.
#[derive(Clone, Copy, Debug)]
pub struct Timestamp {
    pub year: u32,
    pub month: u32,
    pub day: u32,
    pub hour: u32,
    pub minute: u32,
    pub second: u32,
    pub milli: u32,
}

impl Timestamp {
    pub open spec fn wf(&self) -> bool {
        self.year <= 9999 && valid_date(self.year as nat, self.month as nat, self.day as nat)
            && self.hour <= 23 && self.minute <= 59 && self.second <= 59 && self.milli <= 999
    }

    /// The text form stored in a ticket row: `YYYY-MM-DDTHH:MM:SS.mmmZ`.
    pub open spec fn chars(&self) -> Seq<char> {
        timestamp_chars(
            self.year as nat,
            self.month as nat,
            self.day as nat,
            self.hour as nat,
            self.minute as nat,
            self.second as nat,
            self.milli as nat,
        )
    }

    /// The local calendar date of this timestamp: `YYYY-MM-DD`.
    pub open spec fn date(&self) -> Seq<char> {
        date_chars(self.year as nat, self.month as nat, self.day as nat)
    }

    /// Builds a timestamp after checking every field, the day against the
    /// real calendar month.
    pub fn new(year: u32, month: u32, day: u32, hour: u32, minute: u32, second: u32, milli: u32) -> (r:
        Option<Timestamp>)
        ensures
            r matches Some(t) ==> t.wf() && t.year == year && t.month == month && t.day == day
                && t.hour == hour && t.minute == minute && t.second == second && t.milli == milli,
            r is None ==> !(year <= 9999 && valid_date(year as nat, month as nat, day as nat)
                && hour <= 23 && minute <= 59 && second <= 59 && milli <= 999),
    {
        if year <= 9999 && 1 <= month && month <= 12 && hour <= 23 && minute <= 59 && second <= 59
            && milli <= 999 {
            if 1 <= day && day <= days_in_month_exec(year, month) {
                Some(Timestamp { year, month, day, hour, minute, second, milli })
            } else {
                None
            }
        } else {
            None
        }
    }

    pub fn to_text(&self) -> (r: String)
        ensures
            r@ == self.chars(),
    {
        format_timestamp(
            self.year,
            self.month,
            self.day,
            self.hour,
            self.minute,
            self.second,
            self.milli,
        )
    }

    pub fn date_text(&self) -> (r: String)
        ensures
            r@ == self.date(),
    {
        format_date(self.year, self.month, self.day)
    }
}

/// A calendar date in the fixed local offset, held as plain fields.
#[derive(Clone, Copy, Debug)]
pub struct LocalDate {
    pub year: u32,
    pub month: u32,
    pub day: u32,
}

impl LocalDate {
    pub open spec fn wf(&self) -> bool {
        self.year <= 9999 && 1 <= self.month <= 12 && 1 <= self.day <= 31
    }

    pub open spec fn chars(&self) -> Seq<char> {
        date_chars(self.year as nat, self.month as nat, self.day as nat)
    }

    pub fn text(&self) -> (r: String)
        ensures
            r@ == self.chars(),
    {
        format_date(self.year, self.month, self.day)
    }
}

/// Turns a raw clock reading into a timestamp: `Some` exactly when every
/// field is in range and the date is a real calendar date, and then the
/// timestamp carries the reading's fields unchanged.
pub fn reading_to_timestamp(c: &ClockReading) -> (r: Option<Timestamp>)
    ensures
        r is Some <==> (0 <= c.year <= 9999 && valid_date(
            c.year as nat,
            c.month as nat,
            c.day as nat,
        ) && c.hour <= 23 && c.minute <= 59 && c.second <= 59 && c.milli <= 999),
        r matches Some(t) ==> t.wf() && t.year == c.year as u32 && t.month == c.month && t.day
            == c.day && t.hour == c.hour && t.minute == c.minute && t.second == c.second && t.milli
            == c.milli,
{
    if 0 <= c.year && c.year <= 9999 {
        Timestamp::new(c.year as u32, c.month, c.day, c.hour, c.minute, c.second, c.milli)
    } else {
        None
    }
}

/// Reads the wall clock in the fixed UTC+7 offset and validates it with
/// `reading_to_timestamp`, which fixes the result for each reading; given the
/// clock's guarantees, `None` only when the clock reports a year outside
/// `0..=9999`, a leap-second millisecond count above 999, or a moment before
/// the Unix epoch.
pub fn current_timestamp() -> (r: Option<Timestamp>)
    ensures
        r matches Some(t) ==> t.wf(),
{
    match chrono_now_utc7() {
        Some(c) => reading_to_timestamp(&c),
        None => None,
    }
}

/// The newest local calendar date that the retention sweep removes rows from:
/// the date `RETENTION_DAYS` days before `now`. It never lies after `now`'s
/// date, and it exists for every well-formed `now` except in year 0, where
/// the cutoff would leave the supported year range.
pub fn retention_cutoff(now: &Timestamp) -> (r: Option<LocalDate>)
    requires
        now.wf(),
    ensures
        r matches Some(c) ==> c.wf() && days_before(
            now.year as i32,
            now.month,
            now.day,
            RETENTION_DAYS,
        ) == Some((c.year as i32, c.month, c.day)),
        r matches Some(c) ==> !lex_lt(now.date(), c.chars()),
        r is None ==> !(days_before(now.year as i32, now.month, now.day, RETENTION_DAYS) matches
            Some(t) && 0 <= t.0 <= 9999),
        now.year >= 1 ==> r is Some,
{
    match chrono_days_before(now.year as i32, now.month, now.day, RETENTION_DAYS) {
        Some((y, m, d)) => {
            if 0 <= y && y <= 9999 {
                Some(LocalDate { year: y as u32, month: m, day: d })
            } else {
                None
            }
        },
        None => None,
    }
}

} // verus!
