use conmon_server::decimal::{format_i64, parse_i32, ParseIntError};
use std::num::IntErrorKind;

fn std_kind(text: &str) -> Option<ParseIntError> {
    match text.parse::<i32>() {
        Ok(_) => None,
        Err(e) => match e.kind() {
            IntErrorKind::Empty => Some(ParseIntError::Empty),
            IntErrorKind::InvalidDigit => Some(ParseIntError::InvalidDigit),
            IntErrorKind::PosOverflow => Some(ParseIntError::PosOverflow),
            IntErrorKind::NegOverflow => Some(ParseIntError::NegOverflow),
            other => panic!("unexpected kind {:?}", other),
        },
    }
}

fn agrees_with_std(text: &str) {
    match (parse_i32(text), text.parse::<i32>()) {
        (Ok(ours), Ok(theirs)) => assert_eq!(ours, theirs, "value of {:?}", text),
        (Err(ours), Err(theirs)) => {
            assert_eq!(Some(ours), std_kind(text), "fault of {:?}", text);
            assert_eq!(ours.message(), theirs.to_string(), "words for {:?}", text);
        }
        (ours, theirs) => panic!("{:?}: {:?} against {:?}", text, ours, theirs),
    }
}

#[test]
fn parse_reads_plain_numbers() {
    assert_eq!(parse_i32("4242"), Ok(4242));
    assert_eq!(parse_i32("0"), Ok(0));
    assert_eq!(parse_i32("1"), Ok(1));
    assert_eq!(parse_i32("007"), Ok(7));
    assert_eq!(parse_i32("+15"), Ok(15));
    assert_eq!(parse_i32("-15"), Ok(-15));
    assert_eq!(parse_i32("-0"), Ok(0));
}

#[test]
fn parse_reads_the_limits() {
    assert_eq!(parse_i32("2147483647"), Ok(i32::MAX));
    assert_eq!(parse_i32("-2147483648"), Ok(i32::MIN));
    assert_eq!(parse_i32("+2147483647"), Ok(i32::MAX));
    assert_eq!(parse_i32("00000000000000000002147483647"), Ok(i32::MAX));
}

#[test]
fn parse_refuses_empty_text() {
    assert_eq!(parse_i32(""), Err(ParseIntError::Empty));
}

#[test]
fn parse_refuses_a_lone_sign() {
    assert_eq!(parse_i32("-"), Err(ParseIntError::InvalidDigit));
    assert_eq!(parse_i32("+"), Err(ParseIntError::InvalidDigit));
}

#[test]
fn parse_refuses_what_is_not_a_digit() {
    assert_eq!(parse_i32("abc"), Err(ParseIntError::InvalidDigit));
    assert_eq!(parse_i32("12a"), Err(ParseIntError::InvalidDigit));
    assert_eq!(parse_i32(" 12"), Err(ParseIntError::InvalidDigit));
    assert_eq!(parse_i32("12 "), Err(ParseIntError::InvalidDigit));
    assert_eq!(parse_i32("4242\n"), Err(ParseIntError::InvalidDigit));
    assert_eq!(parse_i32("1_000"), Err(ParseIntError::InvalidDigit));
    assert_eq!(parse_i32("--1"), Err(ParseIntError::InvalidDigit));
    assert_eq!(parse_i32("1-"), Err(ParseIntError::InvalidDigit));
    assert_eq!(parse_i32("\u{ff11}\u{ff12}"), Err(ParseIntError::InvalidDigit));
    assert_eq!(parse_i32("\u{663}"), Err(ParseIntError::InvalidDigit));
}

#[test]
fn parse_refuses_what_does_not_fit() {
    assert_eq!(parse_i32("2147483648"), Err(ParseIntError::PosOverflow));
    assert_eq!(parse_i32("-2147483649"), Err(ParseIntError::NegOverflow));
    assert_eq!(parse_i32("99999999999"), Err(ParseIntError::PosOverflow));
    assert_eq!(parse_i32("-99999999999"), Err(ParseIntError::NegOverflow));
}

#[test]
fn parse_reports_the_first_fault() {
    assert_eq!(parse_i32("99999999999x"), Err(ParseIntError::PosOverflow));
    assert_eq!(parse_i32("-99999999999x"), Err(ParseIntError::NegOverflow));
    assert_eq!(parse_i32("9x9999999999"), Err(ParseIntError::InvalidDigit));
    assert_eq!(parse_i32("214748364x"), Err(ParseIntError::InvalidDigit));
    assert_eq!(parse_i32("2147483648x"), Err(ParseIntError::PosOverflow));
}

#[test]
fn parse_agrees_with_the_standard_library() {
    let samples = [
        "", "0", "1", "9", "10", "42", "4242", "+", "-", "+0", "-0", "+1", "-1", "++1", "+-1",
        "-+1", "1+", "1-", "a", "1a", "a1", " 1", "1 ", "\t1", "1\n", "0x10", "1e3", "1.0",
        "2147483646", "2147483647", "2147483648", "2147483649", "-2147483647", "-2147483648",
        "-2147483649", "21474836470", "214748364", "-214748365", "3000000000", "-3000000000",
        "99999999999999999999", "-99999999999999999999", "99999999999x", "x99999999999",
        "000000000000", "-00000000000012", "0000000000002147483648", "\u{967}\u{968}\u{969}", "1\u{ff12}", "\u{e9}", "\u{663}",
        "4242\r\n", "\u{0}", "1\u{0}",
    ];
    for text in samples {
        agrees_with_std(text);
    }
}

#[test]
fn parse_agrees_with_the_standard_library_near_the_limits() {
    let mut n: i64 = i32::MIN as i64 - 40;
    while n <= i32::MIN as i64 + 40 {
        agrees_with_std(&n.to_string());
        n += 1;
    }
    let mut n: i64 = i32::MAX as i64 - 40;
    while n <= i32::MAX as i64 + 40 {
        agrees_with_std(&n.to_string());
        agrees_with_std(&format!("+{}", n));
        n += 1;
    }
    let mut n: i64 = -1200;
    while n <= 1200 {
        agrees_with_std(&n.to_string());
        n += 1;
    }
}

#[test]
fn messages_are_those_of_the_standard_library() {
    assert_eq!(ParseIntError::Empty.message(), "cannot parse integer from empty string");
    assert_eq!(ParseIntError::InvalidDigit.message(), "invalid digit found in string");
    assert_eq!(ParseIntError::PosOverflow.message(), "number too large to fit in target type");
    assert_eq!(ParseIntError::NegOverflow.message(), "number too small to fit in target type");
}

#[test]
fn format_writes_decimal() {
    assert_eq!(format_i64(0), "0");
    assert_eq!(format_i64(7), "7");
    assert_eq!(format_i64(10), "10");
    assert_eq!(format_i64(137), "137");
    assert_eq!(format_i64(-1), "-1");
    assert_eq!(format_i64(-4242), "-4242");
    assert_eq!(format_i64(1000000), "1000000");
    assert_eq!(format_i64(i64::MAX), "9223372036854775807");
    assert_eq!(format_i64(i64::MIN), "-9223372036854775808");
}

#[test]
fn format_agrees_with_the_standard_library() {
    let mut n: i64 = -2500;
    while n <= 2500 {
        assert_eq!(format_i64(n), n.to_string());
        n += 1;
    }
    for n in [i32::MAX as i64, i32::MIN as i64, i64::MAX - 1, i64::MIN + 1, 1 << 40, -(1 << 40)] {
        assert_eq!(format_i64(n), n.to_string());
    }
}

#[test]
fn written_numbers_read_back() {
    for n in [0, 1, -1, 9, 10, -10, 255, 4242, 65535, i32::MAX, i32::MIN, i32::MAX - 1, i32::MIN + 1] {
        assert_eq!(parse_i32(&format_i64(n as i64)), Ok(n));
    }
    let mut n: i32 = -3000;
    while n <= 3000 {
        assert_eq!(parse_i32(&format_i64(n as i64)), Ok(n));
        n += 1;
    }
}
