use chrono::{Duration, NaiveDate, NaiveDateTime, NaiveTime};
use recording_window::solar::{SolarDays, SolarEvents};
use recording_window::timespec::parse_time_spec;
use recording_window::window::{resolve_window, RecordingWindowConfig};

const NZ_SUMMER_UTC_OFFSET_SECONDS: i64 = 13 * 60 * 60;

fn make_date_time_with_offset(
    year: i32,
    month: u32,
    day: u32,
    hour: u32,
    min: u32,
    offset_seconds: i64,
) -> i64 {
    (NaiveDateTime::new(
        NaiveDate::from_ymd_opt(year, month, day).unwrap(),
        NaiveTime::from_hms_opt(hour, min, 0).unwrap(),
    ) - Duration::seconds(offset_seconds))
    .and_utc()
    .timestamp()
}

fn events_for_day(day: i64, latitude: f64, longitude: f64) -> Option<SolarEvents> {
    let date = chrono::DateTime::from_timestamp(day * 86400, 0)
        .unwrap()
        .date_naive();
    sun_times::sun_times(date, latitude, longitude, 0.0).map(|(sunrise, sunset)| SolarEvents {
        sunrise_utc: sunrise.timestamp(),
        sunset_utc: sunset.timestamp(),
    })
}

fn solar_days_around(now_utc: i64, latitude: f64, longitude: f64) -> SolarDays {
    let day = now_utc.div_euclid(86400);
    SolarDays {
        yesterday: events_for_day(day - 1, latitude, longitude),
        today: events_for_day(day, latitude, longitude),
        tomorrow: events_for_day(day + 1, latitude, longitude),
        two_days_ahead: events_for_day(day + 2, latitude, longitude),
    }
}

#[test]
fn test_mixed_relative_and_abs() {
    let test_latitude: f64 = -41.0;
    let test_longitude: f64 = 175.0;
    let tz = NZ_SUMMER_UTC_OFFSET_SECONDS as i32;

    let tomorrow_sun_times = sun_times::sun_times(
        NaiveDate::from_ymd_opt(2000, 1, 2).unwrap(),
        test_latitude,
        test_longitude,
        0.0,
    );
    assert!(tomorrow_sun_times.is_some());
    let (tomorrow_sunrise, _) = tomorrow_sun_times.unwrap();
    let today_sun_times = sun_times::sun_times(
        NaiveDate::from_ymd_opt(2000, 1, 1).unwrap(),
        test_latitude,
        test_longitude,
        0.0,
    );
    assert!(today_sun_times.is_some());
    let (_, today_sunset) = today_sun_times.unwrap();

    let now = make_date_time_with_offset(2000, 1, 2, 1, 1, NZ_SUMMER_UTC_OFFSET_SECONDS);
    let solar = solar_days_around(now, test_latitude, test_longitude);

    let start = parse_time_spec("13:00");
    let stop = parse_time_spec("1h");
    assert!(start.is_ok());
    assert!(stop.is_ok());
    let config = RecordingWindowConfig {
        start: start.unwrap(),
        stop: stop.unwrap(),
        continuous_recorder: false,
    };
    let window = resolve_window(now, &config, Some(&solar), tz).unwrap();
    assert_eq!(
        (tomorrow_sunrise + Duration::hours(1)).timestamp(),
        window.end_utc,
        "Next window should end 1hr past tomorrows sunrise"
    );

    let start = parse_time_spec("-1h");
    let stop = parse_time_spec("13:00");
    assert!(start.is_ok());
    assert!(stop.is_ok());
    let config = RecordingWindowConfig {
        start: start.unwrap(),
        stop: stop.unwrap(),
        continuous_recorder: false,
    };
    let window = resolve_window(now, &config, Some(&solar), tz).unwrap();
    println!("Now {}, start {}", now, window.start_utc);
    assert_eq!(
        window.start_utc,
        (today_sunset - Duration::minutes(60)).timestamp(),
        "Next window should start 1hr before todays sunset"
    );
}
