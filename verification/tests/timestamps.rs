use maelstrom::text::decimal_text;
use maelstrom::timestamps::parse_timestamp_microseconds;

#[test]
fn seconds_become_microseconds() {
    assert_eq!(parse_timestamp_microseconds("0"), Some(0));
    assert_eq!(parse_timestamp_microseconds("1.5"), Some(1_500_000));
    assert_eq!(parse_timestamp_microseconds("12."), Some(12_000_000));
    assert_eq!(parse_timestamp_microseconds("-0.041667"), Some(-41_667));
    assert_eq!(parse_timestamp_microseconds("0.083333"), Some(83_333));
}

#[test]
fn the_seventh_digit_rounds() {
    assert_eq!(parse_timestamp_microseconds("0.0000004"), Some(0));
    assert_eq!(parse_timestamp_microseconds("0.0000005"), Some(1));
    assert_eq!(parse_timestamp_microseconds("0.00000049"), Some(0));
    assert_eq!(parse_timestamp_microseconds("0.9999999"), Some(1_000_000));
    assert_eq!(parse_timestamp_microseconds("-0.0000005"), Some(-1));
}

#[test]
fn what_is_no_number_is_refused() {
    for text in ["", "-", ".5", "-.5", "1.2.3", "1e3", "+1", " 1", "1a", "N/A", "--1"] {
        assert_eq!(parse_timestamp_microseconds(text), None, "{text}");
    }
}

#[test]
fn the_range_is_kept() {
    assert_eq!(
        parse_timestamp_microseconds("9223372036854.775807"),
        Some(i64::MAX)
    );
    assert_eq!(parse_timestamp_microseconds("9223372036854.775808"), None);
    assert_eq!(
        parse_timestamp_microseconds("-9223372036854.775808"),
        Some(i64::MIN)
    );
    assert_eq!(parse_timestamp_microseconds("-9223372036854.775809"), None);
    assert_eq!(
        parse_timestamp_microseconds("99999999999999999999999999999999999999999"),
        None
    );
}

#[test]
fn numbers_are_written_in_decimal() {
    assert_eq!(decimal_text(0), "0");
    assert_eq!(decimal_text(907), "907");
    assert_eq!(decimal_text(u64::MAX), "18446744073709551615");
}
