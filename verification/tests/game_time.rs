use mcml_game::launcher::game_time_obj::{
    parse_duration_flexible, parse_time_part, trim_trailing_zeros, try_parse_duration,
    DurationError, GameDuration, GameTimeObj,
};

fn chars(s: &str) -> Vec<char> {
    s.chars().collect()
}

#[test]
fn duration_with_days() {
    let d = parse_duration_flexible("6.04:35:49.3989028").unwrap();
    let secs: i128 = 6 * 86400 + 4 * 3600 + 35 * 60 + 49;
    assert_eq!(d.nanos, secs * 1_000_000_000 + 398_902_800);
}

#[test]
fn duration_without_days() {
    let d = parse_duration_flexible("00:16:49.9106414").unwrap();
    assert_eq!(d.nanos, (16 * 60 + 49) * 1_000_000_000 + 910_641_400);
    let plain = parse_duration_flexible("  01:02:03  ").unwrap();
    assert_eq!(plain.nanos, 3723 * 1_000_000_000);
    let negative_days = parse_duration_flexible("-1.00:00:00").unwrap();
    assert_eq!(negative_days.nanos, -86400 * 1_000_000_000);
    let nine = parse_duration_flexible("00:00:00.123456789123").unwrap();
    assert_eq!(nine.nanos, 123_456_789);
}

#[test]
fn duration_errors() {
    assert!(matches!(parse_duration_flexible("abc"), Err(DurationError::Unsupported(s)) if s == "abc"));
    assert!(matches!(parse_duration_flexible("1:2"), Err(DurationError::Shape(s)) if s == "1:2"));
    assert!(matches!(parse_duration_flexible("x:00:00"), Err(DurationError::Hours(s)) if s == "x"));
    assert!(matches!(parse_duration_flexible("00:y:00"), Err(DurationError::Minutes(s)) if s == "y"));
    assert!(matches!(parse_duration_flexible("00:60:00"), Err(DurationError::MinutesRange(60))));
    assert!(matches!(parse_duration_flexible("00:00:1a"), Err(DurationError::Seconds(s)) if s == "1a"));
    assert!(matches!(parse_duration_flexible("00:00:61"), Err(DurationError::SecondsRange(61))));
    assert!(matches!(parse_duration_flexible("00:00:61.5"), Err(DurationError::SecondsRange(61))));
    assert!(matches!(parse_duration_flexible("00:00:01.x"), Err(DurationError::Fraction(s)) if s == "x"));
    assert!(matches!(parse_duration_flexible("2.1:2"), Err(DurationError::Shape(s)) if s == "1:2"));
}

#[test]
fn duration_out_of_range() {
    assert!(try_parse_duration("9999999999999999:00:00").is_none());
    assert!(try_parse_duration("999999999999999.00:00:00").is_none());
    assert!(try_parse_duration("00:00:00").is_some());
}

#[test]
fn time_part_alone() {
    let t = parse_time_part(&chars("10:00:00.5")).unwrap();
    assert_eq!(t.nanos, 36000 * 1_000_000_000 + 500_000_000);
}

#[test]
fn game_time_default() {
    let g = GameTimeObj::default();
    assert_eq!(g.add_time.millis, 0);
    assert_eq!(g.last_time.offset_secs, 0);
    assert_eq!(g.game_time.nanos, 0);
    assert_eq!(g.last_play.nanos, 0);
}

/// The text a duration is written as: `[days.]HH:MM:SS.fffffff`, trailing zeros of the
/// fraction dropped.
fn duration_text(d: &GameDuration) -> String {
    let total_seconds = (d.nanos / 1_000_000_000) as i64;
    let nanos = (d.nanos % 1_000_000_000) as i64;
    let days = total_seconds / 86400;
    let hours = (total_seconds % 86400) / 3600;
    let minutes = (total_seconds % 3600) / 60;
    let seconds = total_seconds % 60;
    let seconds_with_frac = seconds as f64 + nanos as f64 / 1_000_000_000.0;
    let formatted = if days > 0 {
        format!("{}.{:02}:{:02}:{:09.7}", days, hours, minutes, seconds_with_frac)
    } else {
        format!("{:02}:{:02}:{:09.7}", hours, minutes, seconds_with_frac)
    };
    trim_trailing_zeros(&formatted)
}

fn game_time_of(json: &str) -> GameDuration {
    let v: serde_json::Value = serde_json::from_str(json).unwrap();
    parse_duration_flexible(v["GameTime"].as_str().unwrap()).unwrap()
}

#[test]
fn time_dec_test() {
    let json_data1 = r#"
    {
        "AddTime": "2024-06-23T18:38:40.9238897+08:00",
        "LastTime": "2024-11-16T20:19:01.8224679+08:00",
        "GameTime": "00:16:49.9106414",
        "LastPlay": "00:00:17.1875992"
    }"#;
    let json_data2 = r#"
    {
        "AddTime": "2025-02-08T23:08:24.4002849+08:00",
        "LastTime": "2025-12-18T16:48:56.4176388+08:00",
        "GameTime": "6.04:35:49.3989028",
        "LastPlay": "00:00:01.2633654"
    }"#;
    let record1 = game_time_of(json_data1);
    assert_eq!(record1.nanos / 1_000_000_000, 16 * 60 + 49);
    let record2 = game_time_of(json_data2);
    let expected_seconds: i128 = 6 * 86400 + 4 * 3600 + 35 * 60 + 49;
    assert_eq!(record2.nanos / 1_000_000_000, expected_seconds);
    let serialized = duration_text(&record2);
    let deserialized = parse_duration_flexible(&serialized).unwrap();
    assert_eq!(record2.nanos, deserialized.nanos);
}
