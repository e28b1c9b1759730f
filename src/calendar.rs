//! Day numbers and weeks.
//!
//! A calendar date is held as its day number in the proleptic Gregorian
//! calendar, with January 1 of year 1 (a Monday) as day 1: the numbering that
//! chrono's `num_days_from_ce` uses. Weeks start on Monday, so week `w` holds
//! the seven days `7w + 1 ..= 7w + 7`, and a week is the ISO week of its days.

use chrono::{Datelike, TimeZone};
use vstd::prelude::*;

verus! {

/// The week that holds day `day`.
pub open spec fn week_of(day: int) -> int {
    (day - 1) / 7
}

/// The first day (a Monday) of week `week`.
pub open spec fn week_start(week: int) -> int {
    7 * week + 1
}

/// The week of `day`; weeks start on Monday.
pub fn week_of_day(day: i32) -> (w: i32)
    ensures
        w == week_of(day as int),
{
    let t: i64 = day as i64 - 1;
    if t >= 0 {
        (t / 7) as i32
    } else {
        let q: i64 = (-t + 6) / 7;
        proof {
            assert(-q == (t as int) / 7) by (nonlinear_arith)
                requires
                    t < 0,
                    q == (-t + 6) / 7,
            ;
        }
        (-q) as i32
    }
}

/// Day number of 1970-01-01, the day of Unix time zero.
pub const UNIX_EPOCH_DAY: i64 = 719_163;

/// The day number, in UTC, of the instant `seen_at` seconds after Unix time zero.
pub open spec fn utc_day(seen_at: int) -> int {
    UNIX_EPOCH_DAY + seen_at / 86_400
}

/// The ISO-8601 year and week number of day `day`.
pub uninterp spec fn iso_week_of(day: int) -> (int, int);

/// The largest distance, in seconds, from Unix time zero of a timestamp that
/// is given a date: about 250,000 years, well inside chrono's range of dates,
/// so that a local offset cannot carry it out of that range.
pub const MAX_TIMESTAMP: i64 = 8_000_000_000_000;

/// Whether the timestamp `seen_at` is within the range that is given a date.
pub open spec fn datable(seen_at: int) -> bool {
    -MAX_TIMESTAMP <= seen_at <= MAX_TIMESTAMP
}

/// Relies on chrono's `Local.timestamp_opt`, `DateTime::date_naive` and
/// `Datelike::num_days_from_ce`: the date, in the machine's time zone, of a
/// Unix timestamp. `timestamp_opt` gives `MappedLocalTime::Single` for every
/// instant in chrono's range, which the `requires` keeps to, and a local
/// offset is always less than a day, so the local date is the UTC date or one
/// of its neighbours. `date_naive` panics only when the offset carries an
/// instant at the very edge of chrono's range beyond it, which the `requires`
/// rules out; `Local`'s offset lookup panics only on time-zone data that is
/// broken or gives an offset of a day or more, whatever the timestamp.
#[verifier::external_body]
pub(crate) fn local_day_number(seen_at: i64) -> (r: Option<i32>)
    requires
        datable(seen_at as int),
    ensures
        r is Some,
        r matches Some(d) ==> utc_day(seen_at as int) - 1 <= d <= utc_day(seen_at as int) + 1,
{
    chrono::Local.timestamp_opt(seen_at, 0).single().map(|t| t.date_naive().num_days_from_ce())
}

/// Day number of chrono's earliest date, `NaiveDate::MIN` (January 1, 262144 BCE).
pub const FIRST_DATE_DAY: i32 = -95_746_129;

/// Day number of chrono's latest date, `NaiveDate::MAX` (December 31, 262142 CE).
pub const LAST_DATE_DAY: i32 = 95_745_399;

/// Whether day `day` has a date in chrono's range.
pub open spec fn has_date(day: int) -> bool {
    FIRST_DATE_DAY <= day <= LAST_DATE_DAY
}

/// Relies on chrono's `NaiveDate::from_num_days_from_ce_opt`, `Datelike::iso_week`,
/// `IsoWeek::year` and `IsoWeek::week`: the ISO year and week (1 to 53) of a day,
/// which exists for every day from `NaiveDate::MIN` to `NaiveDate::MAX`.
#[verifier::external_body]
pub(crate) fn iso_week_number(day: i32) -> (r: Option<(i32, u32)>)
    ensures
        has_date(day as int) ==> r is Some,
        r matches Some(p) ==> (p.0 as int, p.1 as int) == iso_week_of(day as int) && 1 <= p.1 <= 53,
{
    chrono::NaiveDate::from_num_days_from_ce_opt(day).map(|d| {
        let w = d.iso_week();
        (w.year(), w.week())
    })
}

} // verus!
