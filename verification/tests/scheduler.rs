use chrono::{Datelike, DateTime, Local};
use threshold::error::ValidationError;
use threshold::models::{AlarmInput, AlarmMode};
use threshold::scheduler::{calculate_next_trigger, offset_into_window, parse_hhmm, pick_future};

#[test]
fn test_fixed_alarm_calculation() {
    let input = AlarmInput {
        enabled: true,
        mode: AlarmMode::Fixed,
        fixed_time: Some("09:00".into()),
        active_days: vec![1, 2, 3, 4, 5],
        ..Default::default()
    };

    let trigger = calculate_next_trigger(&input).unwrap();
    assert!(trigger.is_some());
}

#[test]
fn test_window_randomization() {
    let input = AlarmInput {
        enabled: true,
        mode: AlarmMode::Window,
        window_start: Some("07:00".into()),
        window_end: Some("07:30".into()),
        active_days: vec![1, 2, 3, 4, 5],
        ..Default::default()
    };

    let trigger = calculate_next_trigger(&input).unwrap().unwrap();

    // Verify the trigger is in the future.
    let now = Local::now().timestamp_millis();
    assert!(trigger > now);

    // Run again to exercise the randomized offset; the result may repeat.
    let _trigger2 = calculate_next_trigger(&input).unwrap().unwrap();
}

#[test]
fn test_disabled_alarm() {
    let input = AlarmInput { enabled: false, ..Default::default() };

    let trigger = calculate_next_trigger(&input).unwrap();
    assert!(trigger.is_none());
}

#[test]
fn test_recurrence_wrap_around() {
    let now = Local::now();
    // Pick a day two days in the past so the next occurrence wraps forward.
    let past_day = (now.weekday().num_days_from_sunday() as i32 + 7 - 2) % 7;

    let input = AlarmInput {
        enabled: true,
        mode: AlarmMode::Fixed,
        fixed_time: Some("12:00".into()),
        active_days: vec![past_day],
        ..Default::default()
    };

    let trigger_ts = calculate_next_trigger(&input).unwrap().unwrap();
    let trigger_dt = DateTime::from_timestamp_millis(trigger_ts).unwrap().with_timezone(&Local);

    assert!(trigger_dt > now);

    // Expect the occurrence about five days out.
    let diff = trigger_dt.signed_duration_since(now);
    assert!(diff.num_days() >= 4);
}

#[test]
fn test_recurrence_nearest_day() {
    let now = Local::now();
    let today_idx = now.weekday().num_days_from_sunday() as i32;

    // Active days: today plus two, and today plus five.
    let day1 = (today_idx + 2) % 7;
    let day2 = (today_idx + 5) % 7;

    let input = AlarmInput {
        enabled: true,
        mode: AlarmMode::Fixed,
        fixed_time: Some("12:00".into()),
        active_days: vec![day1, day2],
        ..Default::default()
    };

    let trigger_ts = calculate_next_trigger(&input).unwrap().unwrap();
    let trigger_dt = DateTime::from_timestamp_millis(trigger_ts).unwrap().with_timezone(&Local);

    assert!(trigger_dt > now);

    // The nearer day wins.
    let diff = trigger_dt.signed_duration_since(now);
    assert!(diff.num_days() <= 3);

    assert_eq!(trigger_dt.weekday().num_days_from_sunday() as i32, day1);
}

#[test]
fn parse_hhmm_accepts_valid_times() {
    assert_eq!(parse_hhmm("07:00"), Some((7, 0)));
    assert_eq!(parse_hhmm("23:59"), Some((23, 59)));
    assert_eq!(parse_hhmm("00:00"), Some((0, 0)));
}

#[test]
fn parse_hhmm_rejects_malformed_times() {
    assert_eq!(parse_hhmm("24:00"), None);
    assert_eq!(parse_hhmm("12:60"), None);
    assert_eq!(parse_hhmm("7:00"), None);
    assert_eq!(parse_hhmm("12-30"), None);
    assert_eq!(parse_hhmm(""), None);
    assert_eq!(parse_hhmm("ab:cd"), None);
}

#[test]
fn fixed_alarm_without_time_is_rejected() {
    let input = AlarmInput {
        enabled: true,
        mode: AlarmMode::Fixed,
        fixed_time: None,
        ..Default::default()
    };
    assert_eq!(calculate_next_trigger(&input), Err(ValidationError::MissingFixedTime));
}

#[test]
fn fixed_alarm_with_malformed_time_is_rejected() {
    let input = AlarmInput {
        enabled: true,
        mode: AlarmMode::Fixed,
        fixed_time: Some("late".into()),
        ..Default::default()
    };
    assert_eq!(calculate_next_trigger(&input), Err(ValidationError::UnparseableTime));
}

#[test]
fn window_alarm_missing_bounds_is_rejected() {
    let input = AlarmInput {
        enabled: true,
        mode: AlarmMode::Window,
        window_start: None,
        window_end: None,
        ..Default::default()
    };
    assert_eq!(calculate_next_trigger(&input), Err(ValidationError::MissingWindowStart));

    let input = AlarmInput {
        enabled: true,
        mode: AlarmMode::Window,
        window_start: Some("07:00".into()),
        window_end: None,
        ..Default::default()
    };
    assert_eq!(calculate_next_trigger(&input), Err(ValidationError::MissingWindowEnd));
}

#[test]
fn empty_window_is_rejected() {
    let input = AlarmInput {
        enabled: true,
        mode: AlarmMode::Window,
        window_start: Some("08:00".into()),
        window_end: Some("08:00".into()),
        ..Default::default()
    };
    assert_eq!(calculate_next_trigger(&input), Err(ValidationError::EmptyWindow));
}

#[test]
fn no_active_days_gives_no_trigger() {
    let input = AlarmInput {
        enabled: true,
        mode: AlarmMode::Fixed,
        fixed_time: Some("09:00".into()),
        active_days: vec![],
        ..Default::default()
    };
    assert_eq!(calculate_next_trigger(&input), Ok(None));
}

#[test]
fn window_trigger_lies_inside_window() {
    let input = AlarmInput {
        enabled: true,
        mode: AlarmMode::Window,
        window_start: Some("00:00".into()),
        window_end: Some("23:59".into()),
        active_days: vec![0, 1, 2, 3, 4, 5, 6],
        ..Default::default()
    };
    // With an all-day window on every day the offset stays inside one day
    // of the window start; mostly this exercises the random offset bound.
    let trigger = calculate_next_trigger(&input).unwrap().unwrap();
    let now = Local::now().timestamp_millis();
    assert!(trigger > now);
    // No more than eight days plus one window length ahead.
    assert!(trigger < now + 9 * 24 * 60 * 60 * 1000);
}

#[test]
fn pick_future_selects_strictly_future_candidates() {
    assert_eq!(pick_future(100, 101), Some(101));
    assert_eq!(pick_future(100, 100), None);
    assert_eq!(pick_future(100, 99), None);
}

#[test]
fn offset_lands_inside_the_window() {
    assert_eq!(offset_into_window(1_000, 30), Some(31_000));
    assert_eq!(offset_into_window(i64::MAX, 1), None);
}
