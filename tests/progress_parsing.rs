use honeymelon::completion::explain_ffmpeg_exit_code;
use honeymelon::decimal::{parse_decimal, Decimal};
use honeymelon::progress::{parse_progress_line, parse_timecode};

fn value(d: Option<Decimal>) -> Option<f64> {
    d.map(|d| d.mantissa as f64 / 10f64.powi(d.scale as i32))
}

#[test]
fn test_parse_timecode_hms() {
    assert_eq!(value(parse_timecode("00:00:10.5")), Some(10.5));
    assert_eq!(value(parse_timecode("00:01:00")), Some(60.0));
    assert_eq!(value(parse_timecode("01:00:00")), Some(3600.0));
    assert_eq!(value(parse_timecode("01:23:45.67")), Some(5025.67));
}

#[test]
fn test_parse_timecode_seconds() {
    assert_eq!(value(parse_timecode("123.45")), Some(123.45));
    assert_eq!(value(parse_timecode("0")), Some(0.0));
}

#[test]
fn test_parse_timecode_invalid() {
    assert_eq!(parse_timecode(""), None);
    assert_eq!(parse_timecode("invalid"), None);
    assert_eq!(parse_timecode("12:34"), None);
}

#[test]
fn parse_timecode_supports_hms_and_seconds_only() {
    assert_eq!(value(parse_timecode("01:02:03")), Some(3723.0));
    assert_eq!(value(parse_timecode("42.5")), Some(42.5));
    assert_eq!(parse_timecode(""), None);
}

#[test]
fn timecode_is_exact_at_the_finest_scale() {
    assert_eq!(
        parse_timecode("01:23:45.67"),
        Some(Decimal { mantissa: 502567, scale: 2 })
    );
    assert_eq!(
        parse_timecode("00:00:15.932583"),
        Some(Decimal { mantissa: 15932583, scale: 6 })
    );
    assert_eq!(parse_timecode("1:2:x"), None);
    assert_eq!(parse_timecode("1:2:3:4"), None);
}

#[test]
fn test_parse_progress_line_full() {
    let line =
        "frame=123 fps=45 q=28.0 size=1024kB time=00:00:05.12 bitrate=1638.4kbits/s speed=1.5x";
    let result = parse_progress_line(line).unwrap();
    assert_eq!(value(result.processed_seconds), Some(5.12));
    assert_eq!(value(result.fps), Some(45.0));
    assert_eq!(value(result.speed), Some(1.5));
}

#[test]
fn test_parse_progress_line_partial() {
    let line = "time=00:01:30 speed=2.0x";
    let result = parse_progress_line(line).unwrap();
    assert_eq!(value(result.processed_seconds), Some(90.0));
    assert_eq!(value(result.fps), None);
    assert_eq!(value(result.speed), Some(2.0));
}

#[test]
fn test_parse_progress_line_no_data() {
    assert!(parse_progress_line("").is_none());
    assert!(parse_progress_line("random log message").is_none());
}

#[test]
fn test_parse_progress_line_fps_only() {
    let line = "fps=30.5";
    let result = parse_progress_line(line).unwrap();
    assert_eq!(value(result.fps), Some(30.5));
    assert_eq!(value(result.processed_seconds), None);
    assert_eq!(value(result.speed), None);
}

#[test]
fn test_parse_progress_line_speed_variations() {
    let line1 = "speed=1.23x";
    let result1 = parse_progress_line(line1).unwrap();
    assert_eq!(value(result1.speed), Some(1.23));

    let line2 = "speed=0.5x";
    let result2 = parse_progress_line(line2).unwrap();
    assert_eq!(value(result2.speed), Some(0.5));
}

#[test]
fn parse_progress_line_detects_metrics_from_tokens() {
    let line = "frame=10 fps=29.97 q=-1.0 time=00:00:05.00 speed=1.5x";
    let metrics = parse_progress_line(line).expect("metrics");
    assert_eq!(value(metrics.processed_seconds), Some(5.0));
    assert_eq!(value(metrics.fps), Some(29.97));
    assert_eq!(value(metrics.speed), Some(1.5));
}

#[test]
fn later_tokens_overwrite_earlier_ones() {
    let metrics = parse_progress_line("  time=00:00:01 out_time=00:00:02.5 fps=10 fps=12 ").unwrap();
    assert_eq!(value(metrics.processed_seconds), Some(2.5));
    assert_eq!(value(metrics.fps), Some(12.0));
    assert_eq!(metrics.speed, None);
}

#[test]
fn single_field_lines_take_the_rest_of_the_line() {
    let metrics = parse_progress_line("out_time=00:00:15.932583").unwrap();
    assert_eq!(value(metrics.processed_seconds), Some(15.932583));
    assert!(parse_progress_line("speed=N/A").is_none());
    let spaced = parse_progress_line("speed= 1.5x").unwrap();
    assert_eq!(value(spaced.speed), Some(1.5));
}

#[test]
fn line_starting_with_a_field_but_holding_more_tokens_is_multi_field() {
    let metrics = parse_progress_line("fps=30 time=00:00:01").unwrap();
    assert_eq!(value(metrics.fps), Some(30.0));
    assert_eq!(value(metrics.processed_seconds), Some(1.0));
    assert_eq!(metrics.speed, None);
    let both = parse_progress_line("fps=45 speed=1x").unwrap();
    assert_eq!(value(both.fps), Some(45.0));
    assert_eq!(value(both.speed), Some(1.0));
}

#[test]
fn decimal_text_forms() {
    assert_eq!(parse_decimal("-2.50"), Some(Decimal { mantissa: -250, scale: 2 }));
    assert_eq!(parse_decimal("+7"), Some(Decimal { mantissa: 7, scale: 0 }));
    assert_eq!(parse_decimal(".5"), Some(Decimal { mantissa: 5, scale: 1 }));
    assert_eq!(parse_decimal("5."), Some(Decimal { mantissa: 5, scale: 0 }));
    assert_eq!(parse_decimal("."), None);
    assert_eq!(parse_decimal("-"), None);
    assert_eq!(parse_decimal("1e3"), Some(Decimal { mantissa: 1000, scale: 0 }));
    assert_eq!(parse_decimal("1.2.3"), None);
    assert_eq!(parse_decimal("1000000000000000"), None);
    assert_eq!(
        parse_decimal("999999999999999"),
        Some(Decimal { mantissa: 999999999999999, scale: 0 })
    );
}

#[test]
fn decimal_exponent_forms() {
    assert_eq!(parse_decimal("1.5e-3"), Some(Decimal { mantissa: 15, scale: 4 }));
    assert_eq!(parse_decimal("-2E+2"), Some(Decimal { mantissa: -200, scale: 0 }));
    assert_eq!(parse_decimal("1.e1"), Some(Decimal { mantissa: 10, scale: 0 }));
    assert_eq!(
        parse_decimal("0.0000000000000000001e20"),
        Some(Decimal { mantissa: 10, scale: 0 })
    );
    assert_eq!(parse_decimal("0e99999999999999999999999"), Some(Decimal { mantissa: 0, scale: 0 }));
    assert_eq!(parse_decimal("1e99999999999999999999999"), None);
    assert_eq!(parse_decimal("5e-20"), None);
    assert_eq!(parse_decimal("1e"), None);
    assert_eq!(parse_decimal("1e+"), None);
    assert_eq!(parse_decimal("e5"), None);
    assert_eq!(parse_decimal("1e5x"), None);
    assert_eq!(value(parse_timecode("1e2")), Some(100.0));
    assert_eq!(value(parse_progress_line("fps=2.997e1").unwrap().fps), Some(29.97));
}

#[test]
fn explain_exit_code_handles_known_values() {
    assert!(explain_ffmpeg_exit_code(1).is_some());
    assert!(explain_ffmpeg_exit_code(69).is_some());
    assert!(explain_ffmpeg_exit_code(9999).is_none());
}
