use chrono::{NaiveDate, Timelike};
use codex_goals::time::{goal_run_dir_name, UtcTime};
use codex_goals::turn_id::new_turn_sub_id;
use codex_goals::version::cli_version;

#[test]
fn run_names_are_written_by_chrono() {
    let name = |y, mo, d, h, mi, s, n| {
        goal_run_dir_name(&UtcTime::new(y, mo, d, h, mi, s, n).expect("a moment"))
    };
    assert_eq!(name(2026, 5, 24, 15, 30, 12, 0), "goal-2026-05-24_15-30-12Z");
    assert_eq!(name(7, 1, 2, 3, 4, 5, 999_999_999), "goal-0007-01-02_03-04-05Z");
    assert_eq!(name(0, 12, 31, 23, 59, 59, 1_500_000_000), "goal-0000-12-31_23-59-60Z");
    assert_eq!(name(10000, 1, 1, 0, 0, 0, 0), "goal-+10000-01-01_00-00-00Z");
    assert_eq!(name(-5, 1, 1, 0, 0, 0, 0), "goal--0005-01-01_00-00-00Z");
    assert_eq!(name(262142, 12, 31, 0, 0, 0, 0), "goal-+262142-12-31_00-00-00Z");
    assert_eq!(name(-262143, 1, 1, 0, 0, 0, 0), "goal--262143-01-01_00-00-00Z");
}

#[test]
fn rfc3339_is_written_by_chrono() {
    let text = |y, mo, d, h, mi, s, n| {
        UtcTime::new(y, mo, d, h, mi, s, n).expect("a moment").to_rfc3339()
    };
    assert_eq!(text(1970, 1, 1, 0, 0, 10, 0), "1970-01-01T00:00:10+00:00");
    assert_eq!(text(2026, 5, 24, 15, 30, 12, 120_000_000), "2026-05-24T15:30:12.120+00:00");
    assert_eq!(text(2026, 5, 24, 15, 30, 12, 1_000), "2026-05-24T15:30:12.000001+00:00");
    assert_eq!(text(2026, 5, 24, 15, 30, 12, 1), "2026-05-24T15:30:12.000000001+00:00");
    assert_eq!(text(2016, 12, 31, 23, 59, 59, 1_000_000_000), "2016-12-31T23:59:60+00:00");
    assert_eq!(text(2016, 12, 31, 23, 59, 59, 1_500_000_000), "2016-12-31T23:59:60.500+00:00");
    assert_eq!(text(-1, 1, 1, 0, 0, 0, 0), "-0001-01-01T00:00:00+00:00");
    assert_eq!(text(10000, 1, 1, 0, 0, 0, 0), "+10000-01-01T00:00:00+00:00");
}

#[test]
fn only_moments_of_the_calendar_exist() {
    let exists =
        |y, mo, d, h, mi, s, n| UtcTime::new(y, mo, d, h, mi, s, n).is_some();
    assert!(exists(2024, 2, 29, 0, 0, 0, 0));
    assert!(!exists(2023, 2, 29, 0, 0, 0, 0));
    assert!(exists(2000, 2, 29, 0, 0, 0, 0));
    assert!(!exists(1900, 2, 29, 0, 0, 0, 0));
    assert!(exists(-4, 2, 29, 0, 0, 0, 0));
    assert!(!exists(2026, 4, 31, 0, 0, 0, 0));
    assert!(!exists(2026, 0, 1, 0, 0, 0, 0));
    assert!(!exists(2026, 13, 1, 0, 0, 0, 0));
    assert!(!exists(2026, 1, 0, 0, 0, 0, 0));
    assert!(!exists(2026, 1, 1, 24, 0, 0, 0));
    assert!(!exists(2026, 1, 1, 0, 60, 0, 0));
    assert!(!exists(2026, 1, 1, 0, 0, 60, 0));
    assert!(exists(2026, 1, 1, 0, 0, 58, 1_999_999_999));
    assert!(!exists(2026, 1, 1, 0, 0, 58, 2_000_000_000));
    assert!(!exists(2026, 1, 1, 0, 0, 59, 2_000_000_000));
    assert!(!exists(262143, 1, 1, 0, 0, 0, 0));
    assert!(!exists(-262144, 1, 1, 0, 0, 0, 0));
}

#[test]
fn existing_days_are_those_of_chrono() {
    for year in [-262143, -400, -100, -4, -1, 0, 1, 4, 100, 400, 1900, 2000, 2023, 2024, 262142] {
        for month in 0..=13 {
            for day in 0..=32 {
                assert_eq!(
                    UtcTime::new(year, month, day, 0, 0, 0, 0).is_some(),
                    NaiveDate::from_ymd_opt(year, month, day).is_some()
                );
            }
        }
    }
}

#[test]
fn leap_seconds_are_those_of_chrono() {
    for second in [0, 30, 58, 59] {
        for nanosecond in [0, 999_999_999, 1_000_000_000, 1_250_000_000, 1_999_999_999] {
            let moment = NaiveDate::from_ymd_opt(2026, 5, 24)
                .unwrap()
                .and_hms_opt(15, 30, second)
                .unwrap()
                .and_utc()
                .with_nanosecond(nanosecond)
                .unwrap();
            let time = UtcTime::new(2026, 5, 24, 15, 30, second, nanosecond).expect("a moment");
            assert_eq!(time.to_rfc3339(), moment.to_rfc3339());
            assert_eq!(
                goal_run_dir_name(&time),
                moment.format("goal-%Y-%m-%d_%H-%M-%SZ").to_string()
            );
        }
    }
    let time = UtcTime::new(2026, 5, 24, 15, 30, 12, 1_500_000_000).expect("a moment");
    assert_eq!(time.to_rfc3339(), "2026-05-24T15:30:13.500+00:00");
    assert_eq!(goal_run_dir_name(&time), "goal-2026-05-24_15-30-13Z");
}

#[test]
fn turn_names_are_random_uuids() {
    let first = new_turn_sub_id();
    let second = new_turn_sub_id();
    assert_ne!(first, second);
    let chars: Vec<char> = first.chars().collect();
    assert_eq!(chars.len(), 36);
    for (i, c) in chars.iter().enumerate() {
        if i == 8 || i == 13 || i == 18 || i == 23 {
            assert_eq!(*c, '-');
        } else {
            assert!(c.is_ascii_digit() || ('a'..='f').contains(c));
        }
    }
    assert_eq!(chars[14], '4');
    assert!("89ab".contains(chars[19]));
}

#[test]
fn release_version_comes_first() {
    assert_eq!(cli_version(Some("1.2.3"), "0.0.0"), "1.2.3");
    assert_eq!(cli_version(None, "0.0.0"), "0.0.0");
}
