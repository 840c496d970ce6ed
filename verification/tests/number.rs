use habitat_builder::number::{decimal, parse_u64, ParseIntError};
use std::num::IntErrorKind;

fn by_std(text: &str) -> Result<u64, ParseIntError> {
    text.parse::<u64>().map_err(|e| match e.kind() {
        IntErrorKind::Empty => ParseIntError::Empty,
        IntErrorKind::InvalidDigit => ParseIntError::InvalidDigit,
        IntErrorKind::PosOverflow => ParseIntError::PosOverflow,
        _ => panic!("no such error for an unsigned number"),
    })
}

#[test]
fn numbers_are_read() {
    assert_eq!(parse_u64("12"), Ok(12));
    assert_eq!(parse_u64("+12"), Ok(12));
    assert_eq!(parse_u64("0012"), Ok(12));
    assert_eq!(parse_u64("18446744073709551615"), Ok(u64::MAX));
}

#[test]
fn what_is_no_number_is_refused() {
    assert_eq!(parse_u64(""), Err(ParseIntError::Empty));
    assert_eq!(parse_u64("+"), Err(ParseIntError::InvalidDigit));
    assert_eq!(parse_u64("-1"), Err(ParseIntError::InvalidDigit));
    assert_eq!(parse_u64(" 1"), Err(ParseIntError::InvalidDigit));
    assert_eq!(parse_u64("1\u{0665}"), Err(ParseIntError::InvalidDigit));
    assert_eq!(parse_u64("18446744073709551616"), Err(ParseIntError::PosOverflow));
}

#[test]
fn numbers_are_read_as_by_the_standard_library() {
    for text in [
        "", "+", "-", "++1", "+-1", "0", "00", "7", "+0", "-0", "1_000", "12a", "a12", "1 ", "0x10",
        "9999999999999999", "99999999999999999", "18446744073709551614", "18446744073709551615",
        "18446744073709551616", "18446744073709551620", "99999999999999999999",
        "99999999999999999999x", "1844674407370955161x", "000000000000000000000000000001", "\u{ff11}",
        "1+", "é",
    ] {
        assert_eq!(parse_u64(text), by_std(text), "{:?}", text);
    }
}

#[test]
fn decimal_text_is_read_back() {
    for n in [0, 1, 9, 10, 99, 100, 120, 1_000_000_007, u64::MAX - 1, u64::MAX] {
        assert_eq!(decimal(n), n.to_string());
        assert_eq!(parse_u64(&decimal(n)), Ok(n));
    }
}
