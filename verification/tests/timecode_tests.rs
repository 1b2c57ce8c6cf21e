use playback_core::timecode::TimeParseError;
use playback_core::timecode::decimal_string;
use playback_core::timecode::find_char;
use playback_core::timecode::format_srt_time;
use playback_core::timecode::format_time;
use playback_core::timecode::padded2_string;
use playback_core::timecode::padded3_string;
use playback_core::timecode::parse_decimal;
use playback_core::timecode::parse_manual_time;
use playback_core::timecode::parse_srt_time;
use playback_core::timecode::str_eq;
use playback_core::timecode::trimmed;
use playback_core::temp::temp_artifact_name;

#[test]
fn parse_srt_time_reads_milliseconds() {
    assert_eq!(parse_srt_time("00:01:02,345"), Ok(62_345));
    assert_eq!(parse_srt_time("01:00:00,000"), Ok(3_600_000));
    assert_eq!(parse_srt_time("0:0:0,7"), Ok(7));
    assert_eq!(parse_srt_time("  00:00:01,500  "), Ok(1_500));
    assert_eq!(parse_srt_time("00 : 00 : 02 , 250"), Ok(2_250));
    // Fields are not range-checked: 99 minutes is 99 minutes.
    assert_eq!(parse_srt_time("00:99:00,000"), Ok(5_940_000));
}

#[test]
fn parse_srt_time_reports_what_is_wrong() {
    assert_eq!(parse_srt_time(""), Err(TimeParseError::Empty));
    assert_eq!(parse_srt_time("   "), Err(TimeParseError::Empty));
    assert_eq!(parse_srt_time("00:01:02"), Err(TimeParseError::Format));
    assert_eq!(parse_srt_time("00:01:02,3,4"), Err(TimeParseError::Format));
    assert_eq!(parse_srt_time("000102,345"), Err(TimeParseError::Format));
    assert_eq!(parse_srt_time("00:0102,345"), Err(TimeParseError::Format));
    assert_eq!(parse_srt_time("00:01:02:03,345"), Err(TimeParseError::Format));
    assert_eq!(parse_srt_time("aa:00:00,000"), Err(TimeParseError::Hour));
    assert_eq!(parse_srt_time("00:bb:00,000"), Err(TimeParseError::Minute));
    assert_eq!(parse_srt_time("00:00:c,000"), Err(TimeParseError::Second));
    assert_eq!(parse_srt_time("00:00:00,"), Err(TimeParseError::Millisecond));
    assert_eq!(parse_srt_time("00:00:00,12x"), Err(TimeParseError::Millisecond));
    assert_eq!(parse_srt_time("-1:00:00,000"), Err(TimeParseError::Hour));
    assert_eq!(
        parse_srt_time("6000000000000:00:00,000"),
        Err(TimeParseError::TooLarge)
    );
}

#[test]
fn format_srt_time_pads_fields() {
    assert_eq!(format_srt_time(0), "00:00:00,000");
    assert_eq!(format_srt_time(62_345), "00:01:02,345");
    assert_eq!(format_srt_time(5_940_000), "01:39:00,000");
    assert_eq!(format_srt_time(359_999_999), "99:59:59,999");
    // Hours keep growing past two digits.
    assert_eq!(format_srt_time(360_000_000), "100:00:00,000");
}

#[test]
fn format_time_uses_a_dot_for_millis() {
    assert_eq!(format_time(0), "00:00:00.000");
    assert_eq!(format_time(62_345), "00:01:02.345");
    assert_eq!(format_time(3_723_004), "01:02:03.004");
}

#[test]
fn srt_time_round_trip() {
    for &ms in &[0u64, 7, 999, 62_345, 3_600_000, 123_456_789] {
        assert_eq!(parse_srt_time(&format_srt_time(ms)), Ok(ms));
    }
}

#[test]
fn parse_manual_time_defaults_empty_fields_to_zero() {
    assert_eq!(parse_manual_time("", "", "", ""), Ok(0));
    assert_eq!(parse_manual_time("1", "2", "3", "4"), Ok(3_723_004));
    assert_eq!(parse_manual_time("", "90", "", ""), Ok(5_400_000));
    assert_eq!(parse_manual_time("", "", "", "250"), Ok(250));
    assert_eq!(parse_manual_time("x", "", "", ""), Err(()));
    assert_eq!(parse_manual_time("", "1.5", "", ""), Err(()));
    assert_eq!(parse_manual_time("", "", "-1", ""), Err(()));
}

#[test]
fn parse_decimal_is_exact() {
    assert_eq!(parse_decimal("0"), Some(0));
    assert_eq!(parse_decimal("007"), Some(7));
    assert_eq!(parse_decimal("1234567890"), Some(1_234_567_890));
    assert_eq!(parse_decimal("18446744073709551615"), Some(u64::MAX));
    assert_eq!(parse_decimal("18446744073709551616"), None);
    assert_eq!(parse_decimal(""), None);
    assert_eq!(parse_decimal("12a"), None);
    assert_eq!(parse_decimal(" 12"), None);
}

#[test]
fn decimal_strings_and_padding() {
    assert_eq!(decimal_string(0), "0");
    assert_eq!(decimal_string(9), "9");
    assert_eq!(decimal_string(1_234_567), "1234567");
    assert_eq!(padded2_string(5), "05");
    assert_eq!(padded2_string(59), "59");
    assert_eq!(padded2_string(123), "123");
    assert_eq!(padded3_string(4), "004");
    assert_eq!(padded3_string(42), "042");
    assert_eq!(padded3_string(999), "999");
    assert_eq!(padded3_string(1000), "1000");
}

#[test]
fn trimmed_strips_ascii_whitespace() {
    assert_eq!(trimmed("  a b \t"), "a b");
    assert_eq!(trimmed("text\r\n"), "text");
    assert_eq!(trimmed("   "), "");
    assert_eq!(trimmed(""), "");
}

#[test]
fn find_char_returns_first_hit() {
    assert_eq!(find_char("a,b,c", ','), Some(1));
    assert_eq!(find_char("abc", ','), None);
    assert_eq!(find_char(",", ','), Some(0));
}

#[test]
fn str_eq_compares_content() {
    assert!(str_eq("abc", "abc"));
    assert!(!str_eq("abc", "abd"));
    assert!(!str_eq("abc", "ab"));
    assert!(str_eq("", ""));
}

#[test]
fn artifact_names_carry_the_timestamp() {
    assert_eq!(temp_artifact_name(0), "seek_0.wav");
    assert_eq!(temp_artifact_name(1_699_999_999_123), "seek_1699999999123.wav");
}
