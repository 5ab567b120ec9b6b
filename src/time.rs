//! The contest clock: a fixed offset five hours west of UTC, with no daylight
//! saving. Instants are whole seconds since the Unix epoch.

use chrono::{Datelike, Timelike};
use vstd::prelude::*;

verus! {

/// Seconds that the contest clock runs behind UTC.
pub const EST_WEST_SECS: i32 = 18000;

/// Seconds in one day.
pub const DAY_SECS: i64 = 86400;

/// The earliest year that the calendar library represents.
pub const MIN_YEAR: i32 = -262143;

/// The latest year that the calendar library represents.
pub const MAX_YEAR: i32 = 262142;

/// Bound on the instants that the contest clock is guaranteed to read.
pub const MAX_STAMP: i64 = 8_000_000_000_000;

/// A calendar date on the contest clock.
#[derive(Clone, Copy, Debug, PartialEq, Eq, Structural)]
pub struct CivilDate {
    pub year: i32,
    pub month: u32,
    pub day: u32,
}

/// A reading of the contest clock: a date and the seconds since its midnight.
#[derive(Clone, Copy, Debug, PartialEq, Eq, Structural)]
pub struct RefTime {
    pub year: i32,
    pub month: u32,
    pub day: u32,
    pub seconds: u32,
}

pub open spec fn is_leap_year(y: int) -> bool {
    (y % 4 == 0 && y % 100 != 0) || y % 400 == 0
}

pub open spec fn days_in_month(y: int, m: int) -> int {
    if m == 2 {
        if is_leap_year(y) { 29 } else { 28 }
    } else if m == 4 || m == 6 || m == 9 || m == 11 {
        30
    } else {
        31
    }
}

/// A date of the proleptic Gregorian calendar within the calendar library's range.
pub open spec fn valid_date(y: int, m: int, d: int) -> bool {
    MIN_YEAR <= y <= MAX_YEAR && 1 <= m <= 12 && 1 <= d <= days_in_month(y, m)
}

/// Days from 1970-01-01 to the given Gregorian date (negative before it).
pub open spec fn days_from_civil(y: int, m: int, d: int) -> int {
    let y2 = if m <= 2 { y - 1 } else { y };
    let era = y2 / 400;
    let yoe = y2 - era * 400;
    let mp = (m + 9) % 12;
    let doy = (153 * mp + 2) / 5 + d - 1;
    let doe = yoe * 365 + yoe / 4 - yoe / 100 + doy;
    era * 146097 + doe - 719468
}

/// The instant at which the given date begins on the contest clock.
pub open spec fn midnight_spec(y: int, m: int, d: int) -> int {
    days_from_civil(y, m, d) * DAY_SECS + EST_WEST_SECS
}

/// The instant that a contest-clock reading denotes.
pub open spec fn ref_time_stamp(t: RefTime) -> int {
    midnight_spec(t.year as int, t.month as int, t.day as int) + t.seconds
}

pub open spec fn ref_time_wf(t: RefTime) -> bool {
    valid_date(t.year as int, t.month as int, t.day as int) && t.seconds < DAY_SECS
}

/// Relies on chrono: `NaiveDate::from_ymd_opt` is `Some` exactly on valid dates
/// of its year range, and `and_local_timezone` with a fixed offset `west`
/// seconds behind UTC gives the instant of local midnight, read by `timestamp`.
#[verifier::external_body]
fn chrono_local_midnight(year: i32, month: u32, day: u32, west: i32) -> (r: Option<i64>)
    requires
        0 <= west < 86400,
    ensures
        r.is_some() == valid_date(year as int, month as int, day as int),
        r.is_some() ==> r.unwrap() == days_from_civil(year as int, month as int, day as int)
            * DAY_SECS + west,
{
    let offset = chrono::FixedOffset::west_opt(west)?;
    let date = chrono::NaiveDate::from_ymd_opt(year, month, day)?;
    let local = date.and_hms_opt(0, 0, 0)?;
    Some(local.and_local_timezone(offset).single()?.timestamp())
}

/// Relies on chrono: `DateTime::from_timestamp` reads a Unix instant (it is
/// `Some` on `-MAX_STAMP..=MAX_STAMP`, some hundred centuries inside its range)
/// and `with_timezone` shifts it to the fixed offset `west` seconds behind UTC;
/// the fields are the local date and the seconds since local midnight.
#[verifier::external_body]
fn chrono_local_reading(stamp: i64, west: i32) -> (r: Option<RefTime>)
    requires
        0 <= west < 86400,
        -MAX_STAMP <= stamp <= MAX_STAMP,
    ensures
        r.is_some(),
        r.is_some() ==> valid_date(r.unwrap().year as int, r.unwrap().month as int, r.unwrap().day as int),
        r.is_some() ==> r.unwrap().seconds < DAY_SECS,
        r.is_some() ==> stamp == days_from_civil(r.unwrap().year as int, r.unwrap().month as int, r.unwrap().day as int)
            * DAY_SECS + west + r.unwrap().seconds,
{
    let offset = chrono::FixedOffset::west_opt(west)?;
    let local = chrono::DateTime::from_timestamp(stamp, 0)?.with_timezone(&offset);
    Some(RefTime { year: local.year(), month: local.month(), day: local.day(), seconds: local.num_seconds_from_midnight() })
}

/// The contest clock's offset: seconds behind UTC.
pub fn est_offset() -> (r: i32)
    ensures
        r == EST_WEST_SECS,
{
    EST_WEST_SECS
}

/// The instant at which `date` begins on the contest clock, or `None` when it is
/// no calendar date.
pub fn est_midnight(date: CivilDate) -> (r: Option<i64>)
    ensures
        r.is_some() == valid_date(date.year as int, date.month as int, date.day as int),
        r.is_some() ==> r.unwrap() == midnight_spec(date.year as int, date.month as int, date.day as int),
{
    chrono_local_midnight(date.year, date.month, date.day, EST_WEST_SECS)
}

/// Reads the contest clock at `stamp`; `None` exactly outside
/// `-MAX_STAMP..=MAX_STAMP`.
pub fn to_reference_time(stamp: i64) -> (r: Option<RefTime>)
    ensures
        r.is_some() == (-MAX_STAMP <= stamp <= MAX_STAMP),
        r.is_some() ==> ref_time_wf(r.unwrap()),
        r.is_some() ==> ref_time_stamp(r.unwrap()) == stamp,
{
    if -MAX_STAMP <= stamp && stamp <= MAX_STAMP {
        chrono_local_reading(stamp, EST_WEST_SECS)
    } else {
        None
    }
}

/// Every date within the calendar's range lies within a hundred million days
/// of the epoch.
pub proof fn lemma_days_from_civil_bounded(y: int, m: int, d: int)
    requires
        valid_date(y, m, d),
    ensures
        -100_000_000 <= days_from_civil(y, m, d) <= 100_000_000,
{
    let y2 = if m <= 2 { y - 1 } else { y };
    let era = y2 / 400;
    let yoe = y2 - era * 400;
    let mp = (m + 9) % 12;
    let doy = (153 * mp + 2) / 5 + d - 1;
    assert(0 <= yoe < 400);
    assert(-656 <= era <= 656) by {
        assert(-262144 <= y2 <= 262142);
    }
    assert(0 <= doy <= 400);
    let doe = yoe * 365 + yoe / 4 - yoe / 100 + doy;
    assert(0 <= doe <= 150_000) by (nonlinear_arith)
        requires
            0 <= yoe < 400,
            0 <= doy <= 400,
            doe == yoe * 365 + yoe / 4 - yoe / 100 + doy,
    ;
    assert(-96_000_000 <= era * 146097 <= 96_000_000) by (nonlinear_arith)
        requires
            -656 <= era <= 656,
    ;
}

/// The contest days of December begin exactly one day apart, in increasing
/// order, in every year.
pub proof fn lemma_december_midnights(year: int, day: int)
    requires
        1 <= day < 25,
    ensures
        midnight_spec(year, 12, day + 1) == midnight_spec(year, 12, day) + DAY_SECS,
        midnight_spec(year, 12, day) < midnight_spec(year, 12, day + 1),
{
    assert(days_from_civil(year, 12, day + 1) == days_from_civil(year, 12, day) + 1);
}

} // verus!
