use guitar_synth::notation::parse_line;
use guitar_synth::score::{ScoreError, ScoreEvent};

fn ok(time: i64, pitch: i32) -> Result<ScoreEvent, ScoreError> {
    Ok(ScoreEvent { time, pitch })
}

#[test]
fn parses_time_in_seconds_and_pitch() {
    assert_eq!(parse_line(b"0.0 0"), ok(0, 0));
    assert_eq!(parse_line(b"0.001 -1"), ok(1_000_000, -1));
    assert_eq!(parse_line(b"1.5 24"), ok(1_500_000_000, 24));
    assert_eq!(parse_line(b"12 36"), ok(12_000_000_000, 36));
    assert_eq!(parse_line(b"0.123456789 7"), ok(123_456_789, 7));
}

#[test]
fn parses_the_line_with_its_line_break() {
    assert_eq!(parse_line(b"2.25 5\n"), ok(2_250_000_000, 5));
    assert_eq!(parse_line(b"2.25 5\r\n"), ok(2_250_000_000, 5));
    assert_eq!(parse_line("0.5 3\n".as_bytes()), ok(500_000_000, 3));
}

#[test]
fn blanks_of_any_length_set_the_fields_apart() {
    assert_eq!(parse_line(b"  \t 3.0 \t\t  12   "), ok(3_000_000_000, 12));
    assert_eq!(parse_line(b"3\t12"), ok(3_000_000_000, 12));
    assert_eq!(parse_line(b"3\x0b12\x0c"), ok(3_000_000_000, 12));
}

#[test]
fn fields_after_the_second_are_not_read() {
    assert_eq!(parse_line(b"1.0 2 and the rest"), ok(1_000_000_000, 2));
    assert_eq!(parse_line(b"1.0 2 3"), ok(1_000_000_000, 2));
}

#[test]
fn signs_are_read() {
    assert_eq!(parse_line(b"-0.1 3"), ok(-100_000_000, 3));
    assert_eq!(parse_line(b"+0.1 +3"), ok(100_000_000, 3));
    assert_eq!(parse_line(b"-0 -0"), ok(0, 0));
    assert_eq!(parse_line(b"7 -2"), ok(7_000_000_000, -2));
}

#[test]
fn point_may_stand_first_or_last() {
    assert_eq!(parse_line(b".5 1"), ok(500_000_000, 1));
    assert_eq!(parse_line(b"5. 1"), ok(5_000_000_000, 1));
    assert_eq!(parse_line(b"-.25 1"), ok(-250_000_000, 1));
}

#[test]
fn digits_after_the_ninth_are_dropped() {
    assert_eq!(parse_line(b"0.1234567891 1"), ok(123_456_789, 1));
    assert_eq!(parse_line(b"0.9999999999999 1"), ok(999_999_999, 1));
    assert_eq!(parse_line(b"-0.0000000009 1"), ok(0, 1));
    assert_eq!(parse_line(b"0.000000001 1"), ok(1, 1));
}

#[test]
fn leading_zeros_do_not_count() {
    assert_eq!(parse_line(b"000000000000000000000000000001.5 0000000000000036"), ok(1_500_000_000, 36));
}

#[test]
fn missing_fields_are_malformed() {
    assert_eq!(parse_line(b""), Err(ScoreError::Format));
    assert_eq!(parse_line(b"   \n"), Err(ScoreError::Format));
    assert_eq!(parse_line(b"1.0"), Err(ScoreError::Format));
    assert_eq!(parse_line(b"1.0 \n"), Err(ScoreError::Format));
}

#[test]
fn fields_that_write_no_number_are_malformed() {
    assert_eq!(parse_line(b"abc 1"), Err(ScoreError::Format));
    assert_eq!(parse_line(b"1.0 x"), Err(ScoreError::Format));
    assert_eq!(parse_line(b"1.0 1.5"), Err(ScoreError::Format));
    assert_eq!(parse_line(b"1.2.3 1"), Err(ScoreError::Format));
    assert_eq!(parse_line(b". 1"), Err(ScoreError::Format));
    assert_eq!(parse_line(b"- 1"), Err(ScoreError::Format));
    assert_eq!(parse_line(b"1 -"), Err(ScoreError::Format));
    assert_eq!(parse_line(b"1 +"), Err(ScoreError::Format));
    assert_eq!(parse_line(b"--1 1"), Err(ScoreError::Format));
    assert_eq!(parse_line(b"1e3 1"), Err(ScoreError::Format));
    assert_eq!(parse_line(b"1,5 1"), Err(ScoreError::Format));
    assert_eq!(parse_line(b"1.5x 1"), Err(ScoreError::Format));
    assert_eq!(parse_line(b"1.5 1x"), Err(ScoreError::Format));
    assert_eq!(parse_line(b"0.1234567890x 1"), Err(ScoreError::Format));
}

#[test]
fn largest_and_smallest_times() {
    assert_eq!(parse_line(b"9223372036.854775807 0"), ok(i64::MAX, 0));
    assert_eq!(parse_line(b"-9223372036.854775808 0"), ok(i64::MIN, 0));
    assert_eq!(parse_line(b"9223372036.854775808 0"), Err(ScoreError::Format));
    assert_eq!(parse_line(b"-9223372036.854775809 0"), Err(ScoreError::Format));
    assert_eq!(parse_line(b"9223372037 0"), Err(ScoreError::Format));
    assert_eq!(parse_line(b"99999999999999999999999999999999 0"), Err(ScoreError::Format));
}

#[test]
fn largest_and_smallest_pitches() {
    assert_eq!(parse_line(b"0 2147483647"), ok(0, i32::MAX));
    assert_eq!(parse_line(b"0 -2147483648"), ok(0, i32::MIN));
    assert_eq!(parse_line(b"0 2147483648"), Err(ScoreError::Format));
    assert_eq!(parse_line(b"0 -2147483649"), Err(ScoreError::Format));
    assert_eq!(parse_line(b"0 99999999999999999999999"), Err(ScoreError::Format));
}

#[test]
fn pitch_out_of_range_still_parses() {
    assert_eq!(parse_line(b"0.0 37"), ok(0, 37));
    assert_eq!(parse_line(b"0.0 -2"), ok(0, -2));
}
