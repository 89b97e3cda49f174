use traffic_quota::calendar::{
    cycle_start, days_in_month, get_seconds_from_rest_day, seconds_since_cycle_start, CivilTime,
    MAX_CYCLE_WINDOW_SECONDS,
};

fn at(year: i32, month: u8, day: u8, hour: u8, minute: u8, second: u8) -> CivilTime {
    CivilTime { year, month, day, hour, minute, second }
}

#[test]
fn reset_in_previous_month() {
    // 2024-03-15 with reset day 20: 15 < 20, so the cycle started on
    // 2024-02-20 (a leap-year February).
    let now = at(2024, 3, 15, 0, 0, 0);
    assert_eq!(cycle_start(&now, 20), (2024, 2, 20));
    // 29 - 20 + 15 = 24 whole days.
    assert_eq!(seconds_since_cycle_start(&now, 20), 24 * 86400);
}

#[test]
fn reset_in_current_month() {
    // 2024-03-25 with reset day 20: 25 >= 20, so the cycle started on
    // 2024-03-20.
    let now = at(2024, 3, 25, 0, 0, 0);
    assert_eq!(cycle_start(&now, 20), (2024, 3, 20));
    assert_eq!(seconds_since_cycle_start(&now, 20), 5 * 86400);
}

#[test]
fn reset_day_clamped_in_short_month() {
    // Reset day 31 rolling back into a non-leap February clamps to
    // February 28.
    let now = at(2023, 3, 5, 0, 0, 0);
    assert_eq!(cycle_start(&now, 31), (2023, 2, 28));
    assert_eq!(seconds_since_cycle_start(&now, 31), 5 * 86400);
}

#[test]
fn reset_day_clamped_in_leap_february() {
    let now = at(2024, 3, 5, 0, 0, 0);
    assert_eq!(cycle_start(&now, 31), (2024, 2, 29));
    assert_eq!(seconds_since_cycle_start(&now, 31), 5 * 86400);
}

#[test]
fn reset_rolls_back_over_new_year() {
    // January 10 with reset day 20 rolls back to December 20 of the
    // previous year.
    let now = at(2024, 1, 10, 0, 0, 0);
    assert_eq!(cycle_start(&now, 20), (2023, 12, 20));
    assert_eq!(seconds_since_cycle_start(&now, 20), (31 - 20 + 10) * 86400);
}

#[test]
fn time_of_day_counts_into_the_window() {
    let now = at(2024, 3, 25, 12, 34, 56);
    assert_eq!(
        seconds_since_cycle_start(&now, 20),
        5 * 86400 + 12 * 3600 + 34 * 60 + 56
    );
}

#[test]
fn reset_today_gives_time_of_day_only() {
    let now = at(2024, 3, 20, 7, 0, 1);
    assert_eq!(cycle_start(&now, 20), (2024, 3, 20));
    assert_eq!(seconds_since_cycle_start(&now, 20), 7 * 3600 + 1);
}

#[test]
fn month_lengths() {
    assert_eq!(days_in_month(2023, 2), 28);
    assert_eq!(days_in_month(2024, 2), 29);
    assert_eq!(days_in_month(1900, 2), 28); // century, not leap
    assert_eq!(days_in_month(2000, 2), 29); // divisible by 400, leap
    assert_eq!(days_in_month(2024, 4), 30);
    assert_eq!(days_in_month(2024, 12), 31);
}

#[test]
fn window_from_real_clock_is_bounded() {
    for reset_day in 1..=31u8 {
        let secs = get_seconds_from_rest_day(&reset_day);
        assert!(secs >= 0);
        assert!(secs < MAX_CYCLE_WINDOW_SECONDS);
    }
}
