//! Cycle window calculator: seconds elapsed since the start of the current
//! monthly billing cycle.
//!
//! The billing cycle starts at 00:00:00 local time on the most recent
//! calendar date whose day-of-month equals the reset day and which is not in
//! the future. When that date falls in the previous month and the previous
//! month is shorter than the reset day, the reset date is clamped to the
//! previous month's last day (so a reset day of 31 rolling back into a
//! non-leap February resets on February 28).

use vstd::prelude::*;
use chrono::Datelike;
use chrono::Timelike;

verus! {

/// An upper bound on the cycle window: the reset date is at most two short
/// of two full months back, so the window is always under 62 days.
pub const MAX_CYCLE_WINDOW_SECONDS: i64 = 62 * 86400;

/// A civil (wall-clock) date and time, with no time zone attached. The
/// calculator works on differences of civil times, so a fixed offset
/// cancels out.
#[derive(Clone, Copy, Debug, PartialEq, Eq, Structural)]
pub struct CivilTime {
    pub year: i32,
    pub month: u8,
    pub day: u8,
    pub hour: u8,
    pub minute: u8,
    pub second: u8,
}

impl CivilTime {
    /// Field ranges a civil time read off a real clock satisfies.
    pub open spec fn wf(self) -> bool {
        &&& -300000 <= self.year <= 300000
        &&& 1 <= self.month <= 12
        &&& 1 <= self.day <= 31
        &&& self.hour <= 23
        &&& self.minute <= 59
        &&& self.second <= 59
    }
}

pub open spec fn spec_is_leap_year(y: int) -> bool {
    y % 4 == 0 && (y % 100 != 0 || y % 400 == 0)
}

pub open spec fn spec_days_in_month(y: int, m: int) -> int {
    if m == 2 {
        if spec_is_leap_year(y) {
            29
        } else {
            28
        }
    } else if m == 4 || m == 6 || m == 9 || m == 11 {
        30
    } else {
        31
    }
}

/// The month before (y, m), rolling the year back from January.
pub open spec fn spec_prev_month(y: int, m: int) -> (int, int) {
    if m == 1 {
        (y - 1, 12)
    } else {
        (y, m - 1)
    }
}

/// The calendar date (year, month, day) on which the current billing cycle
/// started: the reset day in the current month if that is not in the
/// future, else the reset day in the previous month, clamped to the
/// previous month's last day.
pub open spec fn spec_cycle_start(now: CivilTime, reset_day: int) -> (int, int, int) {
    if now.day >= reset_day {
        (now.year as int, now.month as int, reset_day)
    } else {
        let prev = spec_prev_month(now.year as int, now.month as int);
        let dim = spec_days_in_month(prev.0, prev.1);
        (prev.0, prev.1, if reset_day <= dim { reset_day } else { dim })
    }
}

/// Whole seconds from 00:00:00 on the cycle start date up to `now`.
pub open spec fn spec_seconds_since_cycle_start(now: CivilTime, reset_day: int) -> int {
    let start = spec_cycle_start(now, reset_day);
    let days = if start.0 == now.year as int && start.1 == now.month as int {
        now.day - start.2
    } else {
        spec_days_in_month(start.0, start.1) - start.2 + now.day
    };
    days * 86400 + now.hour * 3600 + now.minute * 60 + now.second
}

/// Gregorian leap-year rule.
pub fn is_leap_year(year: i32) -> (r: bool)
    requires
        -400000 <= year <= 400000,
    ensures
        r == spec_is_leap_year(year as int),
{
    // Shift by a multiple of 400 so the remainders are taken of a
    // nonnegative number; the rule is 400-periodic.
    let y: u32 = (year + 400000) as u32;
    proof {
        vstd::arithmetic::div_mod::lemma_mod_multiples_vanish(100000, year as int, 4);
        vstd::arithmetic::div_mod::lemma_mod_multiples_vanish(4000, year as int, 100);
        vstd::arithmetic::div_mod::lemma_mod_multiples_vanish(1000, year as int, 400);
    }
    y % 4 == 0 && (y % 100 != 0 || y % 400 == 0)
}

/// Number of days in the given month.
pub fn days_in_month(year: i32, month: u8) -> (r: u8)
    requires
        -400000 <= year <= 400000,
        1 <= month <= 12,
    ensures
        r == spec_days_in_month(year as int, month as int),
        28 <= r <= 31,
{
    if month == 2 {
        if is_leap_year(year) {
            29
        } else {
            28
        }
    } else if month == 4 || month == 6 || month == 9 || month == 11 {
        30
    } else {
        31
    }
}

/// The calendar date on which the current billing cycle started, as
/// (year, month, day). Clamps the reset day to the previous month's last
/// day when the cycle rolls back into a shorter month.
pub fn cycle_start(now: &CivilTime, reset_day: u8) -> (r: (i32, u8, u8))
    requires
        now.wf(),
        1 <= reset_day <= 31,
    ensures
        r.0 == spec_cycle_start(*now, reset_day as int).0,
        r.1 == spec_cycle_start(*now, reset_day as int).1,
        r.2 == spec_cycle_start(*now, reset_day as int).2,
{
    if now.day >= reset_day {
        (now.year, now.month, reset_day)
    } else {
        let py: i32;
        let pm: u8;
        if now.month == 1 {
            py = now.year - 1;
            pm = 12;
        } else {
            py = now.year;
            pm = now.month - 1;
        }
        let dim = days_in_month(py, pm);
        let d = if reset_day <= dim {
            reset_day
        } else {
            dim
        };
        (py, pm, d)
    }
}

/// Whole seconds elapsed between the cycle start (00:00:00 on the date
/// `cycle_start` returns) and `now`. Always nonnegative and less than 62
/// days, since the reset date is never in the future and at most one month
/// back.
pub fn seconds_since_cycle_start(now: &CivilTime, reset_day: u8) -> (r: i64)
    requires
        now.wf(),
        1 <= reset_day <= 31,
    ensures
        r == spec_seconds_since_cycle_start(*now, reset_day as int),
        0 <= r < MAX_CYCLE_WINDOW_SECONDS,
{
    let start = cycle_start(now, reset_day);
    let days: i64;
    if start.0 == now.year && start.1 == now.month {
        days = (now.day - start.2) as i64;
    } else {
        let dim = days_in_month(start.0, start.1);
        days = dim as i64 - start.2 as i64 + now.day as i64;
    }
    days * 86400 + now.hour as i64 * 3600 + now.minute as i64 * 60 + now.second as i64
}

/// Relies on chrono's `Local::now` for the current wall-clock instant, and
/// on its `Datelike` and `Timelike` accessors to read the civil local date
/// and time from it: chrono documents `month` in 1..=12, `day` in 1..=31,
/// `hour` in 0..=23, `minute` and `second` in 0..=59, and years within
/// about +/-262000 of the common era.
#[verifier::external_body]
fn local_now() -> (r: CivilTime)
    ensures
        r.wf(),
{
    let now = chrono::Local::now();
    CivilTime {
        year: now.year(),
        month: now.month() as u8,
        day: now.day() as u8,
        hour: now.hour() as u8,
        minute: now.minute() as u8,
        second: now.second() as u8,
    }
}

/// Seconds since the most recent cycle reset, measured from the machine's
/// current local time. Whatever instant the clock reports, the window is
/// nonnegative and under 62 days.
pub fn get_seconds_from_rest_day(reset_day: &u8) -> (r: i64)
    requires
        1 <= *reset_day <= 31,
    ensures
        0 <= r < MAX_CYCLE_WINDOW_SECONDS,
{
    let now = local_now();
    seconds_since_cycle_start(&now, *reset_day)
}

} // verus!
