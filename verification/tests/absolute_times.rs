use chrono::{Duration, NaiveDate, NaiveDateTime, NaiveTime};
use recording_window::timespec::parse_time_spec;
use recording_window::window::{is_active, resolve_window, RecordingWindowConfig};

const NZ_SUMMER_UTC_OFFSET_SECONDS: i64 = 13 * 60 * 60;

fn make_time_with_offset(hour: u32, min: u32, offset_seconds: i64) -> i64 {
    (NaiveDateTime::new(
        NaiveDate::from_ymd_opt(2024, 1, 2).unwrap(),
        NaiveTime::from_hms_opt(hour, min, 0).unwrap(),
    ) - Duration::seconds(offset_seconds))
    .and_utc()
    .timestamp()
}

fn window_config(start: &str, stop: &str) -> RecordingWindowConfig {
    RecordingWindowConfig {
        start: parse_time_spec(start).unwrap(),
        stop: parse_time_spec(stop).unwrap(),
        continuous_recorder: false,
    }
}

#[test]
fn test_start_less_than_end() {
    let config = window_config("09:10", "17:30");
    let tz = NZ_SUMMER_UTC_OFFSET_SECONDS as i32;

    let now = make_time_with_offset(9, 9, NZ_SUMMER_UTC_OFFSET_SECONDS);
    let window = resolve_window(now, &config, None, tz).unwrap();
    assert!(
        !is_active(now, &config, None, tz).unwrap(),
        "Not in the active window"
    );
    assert_eq!(
        window.start_utc - now,
        60,
        "It should be 1 minute until the start of the next window"
    );

    let now = make_time_with_offset(9, 10, NZ_SUMMER_UTC_OFFSET_SECONDS);
    let window = resolve_window(now, &config, None, tz).unwrap();
    assert!(is_active(now, &config, None, tz).unwrap(), "In active window");
    assert_eq!(
        window.start_utc - now,
        0,
        "It should be 0 minutes until the start of the next window"
    );

    let now = make_time_with_offset(12, 0, NZ_SUMMER_UTC_OFFSET_SECONDS);
    let window = resolve_window(now, &config, None, tz).unwrap();
    assert!(is_active(now, &config, None, tz).unwrap(), "In active window");
    assert_eq!(
        window.end_utc - now,
        60 * (5 * 60 + 30),
        "It should be 330 minutes until the end of the current window"
    );

    let now = make_time_with_offset(17, 29, NZ_SUMMER_UTC_OFFSET_SECONDS);
    let window = resolve_window(now, &config, None, tz).unwrap();
    assert!(is_active(now, &config, None, tz).unwrap(), "In active window");
    assert_eq!(
        window.end_utc - now,
        60,
        "It should be 1 minutes until the end of the current window"
    );

    let now = make_time_with_offset(17, 30, NZ_SUMMER_UTC_OFFSET_SECONDS);
    let window = resolve_window(now, &config, None, tz).unwrap();
    assert!(
        !is_active(now, &config, None, tz).unwrap(),
        "Outside active window"
    );
    assert_eq!(
        window.start_utc - now,
        60 * 940,
        "It should be 940 minutes until the start of the next window"
    );
}

#[test]
fn test_start_greater_than_end() {
    let config = window_config("22:10", "9:50");
    let tz = NZ_SUMMER_UTC_OFFSET_SECONDS as i32;

    let now = make_time_with_offset(22, 9, NZ_SUMMER_UTC_OFFSET_SECONDS);
    let window = resolve_window(now, &config, None, tz).unwrap();
    assert!(
        !is_active(now, &config, None, tz).unwrap(),
        "Not in the active window"
    );
    assert_eq!(
        window.start_utc - now,
        60,
        "It should be 1 minute until the start of the next window"
    );

    let now = make_time_with_offset(22, 10, NZ_SUMMER_UTC_OFFSET_SECONDS);
    let window = resolve_window(now, &config, None, tz).unwrap();
    assert!(is_active(now, &config, None, tz).unwrap(), "In active window");
    assert_eq!(
        window.start_utc - now,
        0,
        "It should be 0 minutes until the start of the next window"
    );

    let now = make_time_with_offset(23, 59, NZ_SUMMER_UTC_OFFSET_SECONDS);
    let window = resolve_window(now, &config, None, tz).unwrap();
    assert!(is_active(now, &config, None, tz).unwrap(), "In active window");
    assert_eq!(
        window.end_utc - now,
        60 * (9 * 60 + 51),
        "It should be 591 minutes until the end of the current window"
    );

    let now = make_time_with_offset(0, 0, NZ_SUMMER_UTC_OFFSET_SECONDS);
    let window = resolve_window(now, &config, None, tz).unwrap();
    assert!(is_active(now, &config, None, tz).unwrap(), "In active window");
    assert_eq!(
        window.end_utc - now,
        60 * (9 * 60 + 50),
        "It should be 590 minutes until the end of the current window"
    );

    let now = make_time_with_offset(0, 1, NZ_SUMMER_UTC_OFFSET_SECONDS);
    let window = resolve_window(now, &config, None, tz).unwrap();
    assert!(is_active(now, &config, None, tz).unwrap(), "In active window");
    assert_eq!(
        window.end_utc - now,
        60 * 589,
        "It should be 589 minutes until the end of the current window"
    );

    let now = make_time_with_offset(2, 0, NZ_SUMMER_UTC_OFFSET_SECONDS);
    assert!(is_active(now, &config, None, tz).unwrap(), "In active window");

    let now = make_time_with_offset(9, 49, NZ_SUMMER_UTC_OFFSET_SECONDS);
    let window = resolve_window(now, &config, None, tz).unwrap();
    assert!(is_active(now, &config, None, tz).unwrap(), "In active window");
    assert_eq!(
        window.end_utc - now,
        60,
        "It should be 1 minutes until the end of the current window"
    );

    let now = make_time_with_offset(9, 50, NZ_SUMMER_UTC_OFFSET_SECONDS);
    let window = resolve_window(now, &config, None, tz).unwrap();
    assert!(
        is_active(now, &config, None, tz).unwrap(),
        "Inside active window"
    );
    assert_eq!(
        window.end_utc - now,
        0,
        "It should be 0 minutes until the end of the current window"
    );

    let now = make_time_with_offset(9, 51, NZ_SUMMER_UTC_OFFSET_SECONDS);
    let window = resolve_window(now, &config, None, tz).unwrap();
    assert!(
        !is_active(now, &config, None, tz).unwrap(),
        "Outside active window"
    );
    assert_eq!(
        window.start_utc - now,
        60 * 739,
        "It should be 739 minutes until the start of the next window"
    );
}

#[test]
fn test_morning_to_morning() {
    let config = window_config("11:00", "10:00");
    let tz = NZ_SUMMER_UTC_OFFSET_SECONDS as i32;

    let now = make_time_with_offset(9, 59, NZ_SUMMER_UTC_OFFSET_SECONDS);
    let window = resolve_window(now, &config, None, tz).unwrap();
    assert!(
        is_active(now, &config, None, tz).unwrap(),
        "Inside active window"
    );
    assert_eq!(
        window.end_utc - now,
        60,
        "It should be 1 minute until the end of the current window"
    );

    let now = make_time_with_offset(10, 0, NZ_SUMMER_UTC_OFFSET_SECONDS);
    let window = resolve_window(now, &config, None, tz).unwrap();
    assert!(
        !is_active(now, &config, None, tz).unwrap(),
        "Outside active window"
    );
    assert_eq!(
        window.start_utc - now,
        60 * 60,
        "It should be 60 minutes until the start of the next window"
    );

    let now = make_time_with_offset(10, 59, NZ_SUMMER_UTC_OFFSET_SECONDS);
    let window = resolve_window(now, &config, None, tz).unwrap();
    assert!(
        !is_active(now, &config, None, tz).unwrap(),
        "Outside active window"
    );
    assert_eq!(
        window.start_utc - now,
        60,
        "It should be 1 minute until the start of the next window"
    );

    let now = make_time_with_offset(11, 0, NZ_SUMMER_UTC_OFFSET_SECONDS);
    let window = resolve_window(now, &config, None, tz).unwrap();
    assert!(
        is_active(now, &config, None, tz).unwrap(),
        "Inside active window"
    );
    assert_eq!(
        window.end_utc - now,
        60 * (23 * 60),
        "It should be 1380 minutes until the end of the current window"
    );

    let now = make_time_with_offset(18, 0, NZ_SUMMER_UTC_OFFSET_SECONDS);
    let window = resolve_window(now, &config, None, tz).unwrap();
    assert!(
        is_active(now, &config, None, tz).unwrap(),
        "Inside active window"
    );
    assert_eq!(
        window.end_utc - now,
        60 * (16 * 60),
        "It should be 960 minutes until the end of the current window"
    );
}

#[test]
fn test_same_start_end() {
    let config = window_config("15:04", "15:04");
    let tz = NZ_SUMMER_UTC_OFFSET_SECONDS as i32;
    let now = chrono::Utc::now().timestamp();
    assert!(is_active(now, &config, None, tz).unwrap());
    assert!(config.is_continuous_recorder());
}
