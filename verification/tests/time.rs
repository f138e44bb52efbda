use aj_web::time::{
    datetime_fields, format_civil_time, format_datetime, format_duration, format_remaining,
    local_instant, whole_seconds_between,
};
use aj_web::models::Timestamp;

fn ts(secs: i64, nanos: u32) -> Timestamp {
    Timestamp { secs, nanos }
}

#[test]
fn civil_fields_written_padded() {
    assert_eq!(format_civil_time((2024, 3, 7, 9, 5, 0)), "07.03.2024 09:05:00");
    assert_eq!(format_civil_time((12, 12, 31, 23, 59, 59)), "31.12.0012 23:59:59");
    assert_eq!(format_civil_time((-5, 1, 1, 0, 0, 0)), "01.01.-005 00:00:00");
}

#[test]
fn instants_in_local_time() {
    assert_eq!(format_datetime(ts(0, 0), 0), Some("01.01.1970 00:00:00".to_string()));
    // Moscow: JavaScript reports -180 (three hours east of UTC).
    assert_eq!(format_datetime(ts(0, 0), -180), Some("01.01.1970 03:00:00".to_string()));
    assert_eq!(
        format_datetime(ts(1_700_000_000, 123_456_789), 0),
        Some("14.11.2023 22:13:20".to_string())
    );
    assert_eq!(format_datetime(ts(0, 0), 60), Some("31.12.1969 23:00:00".to_string()));
    assert_eq!(format_datetime(ts(i64::MAX, 0), 0), None);
}

#[test]
fn durations() {
    assert_eq!(format_duration("ru", 0), "0 мин");
    assert_eq!(format_duration("en", 59), "0 min");
    assert_eq!(format_duration("en", 7200), "2 h");
    assert_eq!(format_duration("ru", 3 * 86400 + 2 * 3600), "3 дн 2 ч");
    assert_eq!(format_duration("en", 3 * 86400 + 5 * 60), "3 d 0 h 5 min");
    assert_eq!(format_duration("en", 45 * 60 + 30), "45 min");
    assert_eq!(format_duration("ru", 86400 + 3600 + 60), "1 дн 1 ч 1 мин");
    assert_eq!(format_duration("en", -500), "0 min");
}

#[test]
fn remaining_times() {
    assert_eq!(format_remaining("ru", 5), "5 с");
    assert_eq!(format_remaining("en", 65), "1 min 5 s");
    assert_eq!(format_remaining("en", 3600), "1 h 0 min");
    assert_eq!(format_remaining("ru", 86400 + 2 * 3600 + 14 * 60), "1 дн 2 ч 14 мин");
    assert_eq!(format_remaining("en", 120), "2 min");
    assert_eq!(format_remaining("ru", 0), "0 с");
    assert_eq!(format_remaining("ru", 93_845), "1 дн 2 ч 4 мин 5 с");
    assert_eq!(format_remaining("en", -3), "0 s");
}

#[test]
fn instants_within_a_leap_second_in_local_time() {
    // 23:59:60.5 UTC on the first day after the epoch.
    let leap = ts(86_399, 1_500_000_000);
    assert_eq!(format_datetime(leap, 0), Some("01.01.1970 23:59:59".to_string()));
    assert_eq!(format_datetime(leap, -180), Some("02.01.1970 02:59:59".to_string()));
    assert_eq!(format_datetime(leap, 60), Some("01.01.1970 23:00:00".to_string()));
}

#[test]
fn seconds_between_instants() {
    assert_eq!(whole_seconds_between(ts(3, 500_000_000), ts(0, 0)), 3);
    assert_eq!(whole_seconds_between(ts(0, 0), ts(3, 500_000_000)), -3);
    assert_eq!(whole_seconds_between(ts(1, 400), ts(0, 500)), 0);
    assert_eq!(whole_seconds_between(ts(i64::MAX, 0), ts(i64::MIN, 0)), 18_446_744_073_709_551_615);
    // From 23:59:60.5 to 00:00:01 the next day chrono counts half a second.
    assert_eq!(whole_seconds_between(ts(86_401, 0), ts(86_399, 1_500_000_000)), 0);
    assert_eq!(whole_seconds_between(ts(86_402, 0), ts(86_399, 1_500_000_000)), 1);
}

#[test]
fn local_date_and_time_picks_earliest() {
    assert_eq!(local_instant(Some(ts(10, 0)), ts(20, 0)), ts(10, 0));
    assert_eq!(local_instant(None, ts(20, 0)), ts(20, 0));
}

#[test]
fn date_and_time_fields() {
    assert_eq!(datetime_fields("2024-02-29", "13:45"), Some((2024, 2, 29, 13, 45)));
    assert_eq!(datetime_fields("2023-02-29", "13:45"), None);
    assert_eq!(datetime_fields("2024-01-01", "24:00"), None);
    assert_eq!(datetime_fields("", "10:00"), None);
    assert_eq!(datetime_fields("2024-1-5", "7:05"), Some((2024, 1, 5, 7, 5)));
}
