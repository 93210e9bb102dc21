use sugar_upload::decimal::{parse_u64, to_decimal};

#[test]
fn digits_are_read() {
    assert_eq!(parse_u64("0"), Some(0));
    assert_eq!(parse_u64("7"), Some(7));
    assert_eq!(parse_u64("1234567890"), Some(1_234_567_890));
    assert_eq!(parse_u64("000123"), Some(123));
}

#[test]
fn a_leading_plus_is_accepted() {
    assert_eq!(parse_u64("+42"), Some(42));
    assert_eq!(parse_u64("+"), None);
    assert_eq!(parse_u64("++1"), None);
    assert_eq!(parse_u64("1+"), None);
}

#[test]
fn other_text_is_rejected() {
    for text in ["", " 1", "1 ", "-1", "1.5", "12a", "a12", "0x10", "1_000", "١٢"] {
        assert_eq!(parse_u64(text), None, "{:?}", text);
    }
}

#[test]
fn the_largest_number_is_read_and_the_next_is_not() {
    assert_eq!(parse_u64("18446744073709551615"), Some(u64::MAX));
    assert_eq!(parse_u64("18446744073709551616"), None);
    assert_eq!(parse_u64("99999999999999999999"), None);
    assert_eq!(parse_u64("184467440737095516150"), None);
    assert_eq!(parse_u64("18446744073709551616x"), None);
}

#[test]
fn the_parser_agrees_with_the_standard_one() {
    for text in ["0", "+0", "42", "+", "", "007", "18446744073709551615", "18446744073709551616", "-0", "4 2"] {
        assert_eq!(parse_u64(text), text.parse::<u64>().ok(), "{:?}", text);
    }
}

#[test]
fn numbers_are_written_without_leading_zeros() {
    assert_eq!(to_decimal(0), "0");
    assert_eq!(to_decimal(9), "9");
    assert_eq!(to_decimal(10), "10");
    assert_eq!(to_decimal(1_292_345), "1292345");
    assert_eq!(to_decimal(u64::MAX), "18446744073709551615");
}

#[test]
fn what_is_written_is_read_back() {
    for n in [0u64, 1, 9, 10, 99, 100, 12_345, 1 << 32, u64::MAX - 1, u64::MAX] {
        assert_eq!(parse_u64(&to_decimal(n)), Some(n));
        assert_eq!(to_decimal(n), n.to_string());
    }
}
