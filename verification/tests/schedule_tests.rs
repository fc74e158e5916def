use sairgent_kernel::error::KernelError;
use sairgent_kernel::recurring::{next_run_at_after_run, run_advances_schedule};
use sairgent_kernel::registry::RecurringWorkOrderScheduleRecord;
use sairgent_kernel::schedule::{compute_next_recurring_run_at, next_run_unix, sanitize_schedule_day};

fn schedule(cadence: &str, interval: i64, day_of_month: Option<i64>, hour: Option<i64>, minute: Option<i64>) -> RecurringWorkOrderScheduleRecord {
    RecurringWorkOrderScheduleRecord {
        cadence: cadence.to_string(),
        interval,
        timezone: "UTC".to_string(),
        days_of_week: None,
        day_of_month,
        hour,
        minute,
        cron_expression: None,
    }
}

fn internal_message(r: Result<String, KernelError>) -> String {
    match r {
        Err(KernelError::Internal(m)) => m,
        other => panic!("expected an internal error, got {:?}", other),
    }
}

#[test]
fn hourly_run_lands_on_the_next_matching_minute() {
    // 2024-03-09 16:00:00 UTC, minute 30 of the same hour is still ahead.
    let s = schedule("hourly", 1, None, None, Some(30));
    assert_eq!(next_run_unix(&s, 1_710_000_000), 1_710_001_800);
    assert_eq!(compute_next_recurring_run_at(&s, 1_710_000_000).unwrap(), "2024-03-09 16:30:00");
}

#[test]
fn monthly_run_on_the_last_day_skips_a_short_month_as_the_c_library_does() {
    // 2024-01-31 10:00:00 UTC; the 31st at 09:00 has passed, and
    // January 31st plus one month normalises to March.
    let s = schedule("monthly", 1, Some(31), Some(9), Some(0));
    assert_eq!(compute_next_recurring_run_at(&s, 1_706_695_200).unwrap(), "2024-03-31 09:00:00");
}

#[test]
fn monthly_run_defaults_to_todays_day_of_month() {
    // 2024-03-15 12:00:00 UTC.
    let s = schedule("monthly", 1, None, None, None);
    assert_eq!(compute_next_recurring_run_at(&s, 1_710_504_000).unwrap(), "2024-04-15 09:00:00");
}

#[test]
fn monthly_run_later_today_stays_in_this_month() {
    // 2024-03-15 08:00:00 UTC; 09:00 on the 20th is still ahead.
    let s = schedule("monthly", 3, Some(20), None, None);
    assert_eq!(compute_next_recurring_run_at(&s, 1_710_489_600).unwrap(), "2024-03-20 09:00:00");
}

#[test]
fn daily_interval_adds_whole_days() {
    let s = schedule("daily", 3, None, Some(8), Some(15));
    // 2024-03-09 16:00:00 UTC; 08:15 today has passed.
    assert_eq!(compute_next_recurring_run_at(&s, 1_710_000_000).unwrap(), "2024-03-12 08:15:00");
}

#[test]
fn runs_past_year_9999_print_a_five_digit_year() {
    let s = schedule("hourly", 1, None, None, Some(0));
    assert_eq!(compute_next_recurring_run_at(&s, 253_402_300_799).unwrap(), "10000-01-01 00:00:00");
}

#[test]
fn a_start_beyond_the_c_time_range_is_refused() {
    let s = schedule("daily", 1, None, None, None);
    assert_eq!(
        internal_message(compute_next_recurring_run_at(&s, 67_768_036_191_676_800)),
        "Failed to convert unix timestamp into UTC time"
    );
}

#[test]
fn a_run_beyond_the_c_time_range_is_refused() {
    let s = schedule("hourly", 1, None, None, Some(0));
    assert_eq!(
        internal_message(compute_next_recurring_run_at(&s, 67_768_036_191_676_799)),
        "Failed to convert unix timestamp into UTC time"
    );
    let weekly = schedule("weekly", 1, None, None, None);
    assert_eq!(
        internal_message(compute_next_recurring_run_at(&weekly, 67_768_036_191_676_799)),
        "Failed to convert UTC time into unix timestamp"
    );
}

#[test]
fn weekday_numbers_are_clamped() {
    assert_eq!(sanitize_schedule_day(-3), 0);
    assert_eq!(sanitize_schedule_day(4), 4);
    assert_eq!(sanitize_schedule_day(9), 6);
}

#[test]
fn only_scheduled_runs_advance_the_template() {
    assert!(run_advances_schedule("schedule"));
    assert!(!run_advances_schedule("manual"));
    let s = schedule("daily", 1, None, Some(9), Some(30));
    let kept = next_run_at_after_run(false, &s, 1_710_000_000, Some("2024-03-10 09:30:00".to_string()));
    assert!(matches!(kept, Ok(Some(ref v)) if v == "2024-03-10 09:30:00"));
    let advanced = next_run_at_after_run(true, &s, 1_710_000_000, None);
    assert!(matches!(advanced, Ok(Some(ref v)) if v == "2024-03-10 09:30:00"));
}

#[test]
fn hourly_runs_before_1970_cut_the_hour_towards_zero() {
    let s = schedule("hourly", 1, None, None, Some(0));
    assert_eq!(compute_next_recurring_run_at(&s, -1).unwrap(), "1970-01-01 00:00:00");
    let every_two = schedule("hourly", 2, None, None, Some(0));
    assert_eq!(compute_next_recurring_run_at(&every_two, -5_400).unwrap(), "1969-12-31 23:00:00");
    assert_eq!(compute_next_recurring_run_at(&every_two, -3_600).unwrap(), "1970-01-01 01:00:00");
}

#[test]
fn calendar_runs_from_before_1970_are_refused() {
    for cadence in ["daily", "weekly", "monthly", "custom"] {
        let s = schedule(cadence, 1, None, None, None);
        assert_eq!(
            internal_message(compute_next_recurring_run_at(&s, -1)),
            "Failed to convert UTC time into unix timestamp"
        );
    }
}
