//! Points in time and the UTC calendar dates they fall on.

use chrono::Datelike;
use vstd::prelude::*;

verus! {

/// A point in time: whole seconds since 1970-01-01 00:00:00 UTC, and the
/// nanoseconds into that second.
#[derive(Clone, Copy, Debug, PartialEq, Eq, Structural)]
pub struct Timestamp {
    pub secs: i64,
    pub nanos: u32,
}

/// A day of the proleptic Gregorian calendar.
#[derive(Clone, Copy, Debug, PartialEq, Eq, Structural)]
pub struct ResolvedTimestamp {
    pub year: i32,
    pub month: u32,
    pub day: u32,
}

/// The nanoseconds that make a second.
pub const NANOS_PER_SEC: u32 = 1_000_000_000;

impl Timestamp {
    /// The nanoseconds from the epoch to this point in time; negative before it.
    pub open spec fn instant(self) -> int {
        self.secs * NANOS_PER_SEC + self.nanos
    }

    /// The last point in time that a `Timestamp` with less than a second of
    /// nanoseconds can hold.
    pub open spec fn latest() -> Timestamp {
        Timestamp { secs: i64::MAX, nanos: (NANOS_PER_SEC - 1) as u32 }
    }

    /// The first point in time that a `Timestamp` can hold.
    pub open spec fn earliest() -> Timestamp {
        Timestamp { secs: i64::MIN, nanos: 0 }
    }

    /// The point in time `secs` seconds and `nanos` nanoseconds after the
    /// epoch, with less than a second of nanoseconds; `latest()` for any
    /// point behind it.
    pub fn after_epoch(secs: u64, nanos: u32) -> (time: Timestamp)
        ensures
            time.nanos < NANOS_PER_SEC,
            secs * NANOS_PER_SEC + nanos <= Timestamp::latest().instant() ==> time.instant() == secs
                * NANOS_PER_SEC + nanos,
            secs * NANOS_PER_SEC + nanos > Timestamp::latest().instant() ==> time
                == Timestamp::latest(),
    {
        let whole: u128 = secs as u128 + (nanos / NANOS_PER_SEC) as u128;
        if whole > i64::MAX as u128 {
            Timestamp { secs: i64::MAX, nanos: NANOS_PER_SEC - 1 }
        } else {
            Timestamp { secs: whole as i64, nanos: nanos % NANOS_PER_SEC }
        }
    }

    /// The point in time `secs` seconds and `nanos` nanoseconds before the
    /// epoch, with less than a second of nanoseconds; `earliest()` for any
    /// point before it.
    pub fn before_epoch(secs: u64, nanos: u32) -> (time: Timestamp)
        ensures
            time.nanos < NANOS_PER_SEC,
            -(secs * NANOS_PER_SEC + nanos) >= Timestamp::earliest().instant() ==> time.instant()
                == -(secs * NANOS_PER_SEC + nanos),
            -(secs * NANOS_PER_SEC + nanos) < Timestamp::earliest().instant() ==> time
                == Timestamp::earliest(),
    {
        let part: u32 = nanos % NANOS_PER_SEC;
        let whole: u128 = secs as u128 + (nanos / NANOS_PER_SEC) as u128;
        if whole > i64::MAX as u128 {
            Timestamp { secs: i64::MIN, nanos: 0 }
        } else if part == 0 {
            Timestamp { secs: -(whole as i64), nanos: 0 }
        } else {
            Timestamp { secs: -(whole as i64) - 1, nanos: NANOS_PER_SEC - part }
        }
    }
}

/// The first year whose days can be resolved.
pub const MIN_YEAR: i32 = -262143;

/// The last year whose days can be resolved.
pub const MAX_YEAR: i32 = 262142;

/// The number that the day numbering of `day_number` gives to 1970-01-01.
pub const EPOCH_DAY: i64 = 719163;

/// Whether `year` has a 29th of February: every fourth year has, but of the
/// years that end a century only every fourth.
pub open spec fn is_leap_year(year: int) -> bool {
    year % 4 == 0 && (year % 100 != 0 || year % 400 == 0)
}

/// The number of days in `year`.
pub open spec fn days_in_year(year: int) -> int {
    if is_leap_year(year) {
        366
    } else {
        365
    }
}

/// The number of days in month `month` of `year`, January being month 1.
pub open spec fn days_in_month(year: int, month: int) -> int {
    if month == 2 {
        if is_leap_year(year) {
            29
        } else {
            28
        }
    } else if month == 4 || month == 6 || month == 9 || month == 11 {
        30
    } else {
        31
    }
}

/// Whether `year`, `month`, `day` name a day that the calendar has.
pub open spec fn is_date(year: int, month: int, day: int) -> bool {
    1 <= month <= 12 && 1 <= day <= days_in_month(year, month)
}

/// The days in the years from year 1 up to, not including, `year`; for a
/// `year` below 1, minus the days from `year` up to, not including, year 1.
pub open spec fn days_before_year(year: int) -> int {
    let y = year - 1;
    365 * y + y / 4 - y / 100 + y / 400
}

/// The days of `year` that lie before its month `month`.
pub open spec fn days_before_month(year: int, month: int) -> int
    decreases month,
{
    if month <= 1 {
        0
    } else {
        days_before_month(year, month - 1) + days_in_month(year, month - 1)
    }
}

/// The running number of a day, where January 1 of year 1 is day 1.
pub open spec fn day_number(year: int, month: int, day: int) -> int {
    days_before_year(year) + days_before_month(year, month) + day
}

/// The running number of the UTC day that holds the second `secs`.
pub open spec fn utc_day_number(secs: int) -> int {
    secs / 86400 + EPOCH_DAY
}

/// Whether a point in time falls into the years that can be resolved and its
/// nanoseconds are in order: below one second, or below two in the last
/// second of a minute, which is how a leap second is written.
pub open spec fn is_resolvable(secs: int, nanos: int) -> bool {
    &&& day_number(MIN_YEAR as int, 1, 1) <= utc_day_number(secs) <= day_number(
        MAX_YEAR as int,
        12,
        31,
    )
    &&& (nanos < 1_000_000_000 || (nanos < 2_000_000_000 && secs % 60 == 59))
}

impl ResolvedTimestamp {
    /// The calendar has this day.
    pub open spec fn wf(self) -> bool {
        is_date(self.year as int, self.month as int, self.day as int)
    }

    /// The running number of this day.
    pub open spec fn number(self) -> int {
        day_number(self.year as int, self.month as int, self.day as int)
    }
}

/// The day of the calendar whose running number is `number`.
pub open spec fn date_numbered(number: int) -> ResolvedTimestamp {
    choose|date: ResolvedTimestamp| date.wf() && date.number() == number
}

/// The UTC calendar date that a point in time falls on.
pub open spec fn utc_date_of(time: Timestamp) -> ResolvedTimestamp {
    date_numbered(utc_day_number(time.secs as int))
}

/// Whether the UTC calendar date of a point in time can be told.
pub open spec fn resolvable(time: Timestamp) -> bool {
    is_resolvable(time.secs as int, time.nanos as int)
}

/// The days of a year, added to the days before it, give the days before the
/// year after it.
pub proof fn lemma_days_before_next_year(year: int)
    ensures
        days_before_year(year + 1) == days_before_year(year) + days_in_year(year),
{
    lemma_passes_multiple_of_4(year);
    lemma_passes_multiple_of_100(year);
    lemma_passes_multiple_of_400(year);
    lemma_multiples_of_hundreds(year);
}

/// Counting up to `year` passes one more multiple of 4 exactly when `year` is one.
proof fn lemma_passes_multiple_of_4(year: int)
    ensures
        year / 4 - (year - 1) / 4 == if year % 4 == 0 { 1int } else { 0 },
{
}

/// Counting up to `year` passes one more multiple of 100 exactly when `year` is one.
proof fn lemma_passes_multiple_of_100(year: int)
    ensures
        year / 100 - (year - 1) / 100 == if year % 100 == 0 { 1int } else { 0 },
{
}

/// Counting up to `year` passes one more multiple of 400 exactly when `year` is one.
proof fn lemma_passes_multiple_of_400(year: int)
    ensures
        year / 400 - (year - 1) / 400 == if year % 400 == 0 { 1int } else { 0 },
{
}

/// A multiple of 400 is one of 100, and a multiple of 100 is one of 4.
proof fn lemma_multiples_of_hundreds(year: int)
    ensures
        year % 400 == 0 ==> year % 100 == 0,
        year % 100 == 0 ==> year % 4 == 0,
{
    if year % 400 == 0 {
        assert(year == 100 * (4 * (year / 400)));
    }
    if year % 100 == 0 {
        assert(year == 4 * (25 * (year / 100)));
    }
}

/// Between two years lie at least 365 days for each year from the first to the second.
pub proof fn lemma_days_before_year_grows(from: int, to: int)
    requires
        from <= to,
    ensures
        days_before_year(to) >= days_before_year(from) + 365 * (to - from),
    decreases to - from,
{
    if from < to {
        lemma_days_before_year_grows(from, to - 1);
        lemma_days_before_next_year(to - 1);
    }
}

/// Where each month of a year starts, and that twelve months fill the year.
pub proof fn lemma_month_starts(year: int)
    ensures
        days_before_month(year, 1) == 0,
        days_before_month(year, 2) == 31,
        days_before_month(year, 3) == days_in_year(year) - 306,
        days_before_month(year, 4) == days_in_year(year) - 275,
        days_before_month(year, 5) == days_in_year(year) - 245,
        days_before_month(year, 6) == days_in_year(year) - 214,
        days_before_month(year, 7) == days_in_year(year) - 184,
        days_before_month(year, 8) == days_in_year(year) - 153,
        days_before_month(year, 9) == days_in_year(year) - 122,
        days_before_month(year, 10) == days_in_year(year) - 92,
        days_before_month(year, 11) == days_in_year(year) - 61,
        days_before_month(year, 12) == days_in_year(year) - 31,
        days_before_month(year, 13) == days_in_year(year),
{
    reveal_with_fuel(days_before_month, 14);
}

/// A day of a year is one of that year's days: its number lies behind the
/// days before the year and not behind the days before the next.
pub proof fn lemma_day_number_within_year(date: ResolvedTimestamp)
    requires
        date.wf(),
    ensures
        days_before_year(date.year as int) < date.number() <= days_before_year(date.year + 1),
{
    lemma_month_starts(date.year as int);
    lemma_days_before_next_year(date.year as int);
}

/// The day number tells the date: two days of the calendar with one number
/// are one day.
pub proof fn lemma_day_number_tells_date(a: ResolvedTimestamp, b: ResolvedTimestamp)
    requires
        a.wf(),
        b.wf(),
        a.number() == b.number(),
    ensures
        a == b,
{
    lemma_day_number_within_year(a);
    lemma_day_number_within_year(b);
    if a.year < b.year {
        lemma_days_before_year_grows(a.year + 1, b.year as int);
    } else if b.year < a.year {
        lemma_days_before_year_grows(b.year + 1, a.year as int);
    } else {
        lemma_month_starts(a.year as int);
    }
}

/// A day of the calendar is the day that its number names.
pub proof fn lemma_date_numbered(date: ResolvedTimestamp)
    requires
        date.wf(),
    ensures
        date_numbered(date.number()) == date,
{
    lemma_day_number_tells_date(date_numbered(date.number()), date);
}

/// The range of a `Timestamp` reaches beyond the calendar on both sides:
/// the points at which `after_epoch` and `before_epoch` stop have no date.
pub proof fn lemma_ends_have_no_date()
    ensures
        !resolvable(Timestamp::latest()),
        !resolvable(Timestamp::earliest()),
{
    lemma_month_starts(MIN_YEAR as int);
    lemma_month_starts(MAX_YEAR as int);
}

/// The UTC calendar date of a point in time, from chrono:
/// `DateTime::from_timestamp`, then `Datelike::year`, `month` and `day` of
/// the `DateTime<Utc>` it gives.
///
/// Not proved, but taken from chrono's source: `from_timestamp` gives `None`
/// exactly for a day outside the years `MIN_YEAR` to `MAX_YEAR` or for
/// nanoseconds out of order, and otherwise the date whose day number, counted
/// from January 1 of year 1 as day 1, is the floor of `secs / 86400` plus
/// `EPOCH_DAY`; the three getters give that date's year, month (from 1) and
/// day of the month (from 1).
#[verifier::external_body]
fn utc_date(secs: i64, nanos: u32) -> (date: Option<(i32, u32, u32)>)
    ensures
        date is Some <==> is_resolvable(secs as int, nanos as int),
        date matches Some((year, month, day)) ==> is_date(year as int, month as int, day as int)
            && day_number(year as int, month as int, day as int) == utc_day_number(secs as int),
{
    match chrono::DateTime::from_timestamp(secs, nanos) {
        Some(moment) => Some((moment.year(), moment.month(), moment.day())),
        None => None,
    }
}

/// The UTC calendar date of `time`, if it can be resolved.
pub fn get_year_month_day(time: Timestamp) -> (date: Option<ResolvedTimestamp>)
    ensures
        date is Some <==> resolvable(time),
        date matches Some(d) ==> d.wf() && d == utc_date_of(time),
{
    match utc_date(time.secs, time.nanos) {
        Some((year, month, day)) => {
            let date = ResolvedTimestamp { year, month, day };
            proof {
                lemma_date_numbered(date);
            }
            Some(date)
        },
        None => None,
    }
}

} // verus!
