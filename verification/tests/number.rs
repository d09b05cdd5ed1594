use jamsession::number::{append_decimal, parse_i64, parse_unsigned_text, IntErrorKind};

#[test]
fn unsigned_parsing() {
    assert_eq!(parse_unsigned_text("42", u64::MAX), Ok(42));
    assert_eq!(parse_unsigned_text("+7", u64::MAX), Ok(7));
    assert_eq!(parse_unsigned_text("", u64::MAX), Err(IntErrorKind::Empty));
    assert_eq!(parse_unsigned_text("+", u64::MAX), Err(IntErrorKind::InvalidDigit));
    assert_eq!(parse_unsigned_text("-1", u64::MAX), Err(IntErrorKind::InvalidDigit));
    assert_eq!(parse_unsigned_text("4x", u64::MAX), Err(IntErrorKind::InvalidDigit));
    assert_eq!(parse_unsigned_text("4294967295", u32::MAX as u64), Ok(4294967295));
    assert_eq!(
        parse_unsigned_text("4294967296", u32::MAX as u64),
        Err(IntErrorKind::PosOverflow)
    );
    assert_eq!(
        parse_unsigned_text("18446744073709551615", u64::MAX),
        Ok(u64::MAX)
    );
    assert_eq!(
        parse_unsigned_text("18446744073709551616", u64::MAX),
        Err(IntErrorKind::PosOverflow)
    );
}

#[test]
fn signed_parsing() {
    assert_eq!(parse_i64("-9223372036854775808"), Ok(i64::MIN));
    assert_eq!(parse_i64("9223372036854775807"), Ok(i64::MAX));
    assert_eq!(parse_i64("-9223372036854775809"), Err(IntErrorKind::NegOverflow));
    assert_eq!(parse_i64("9223372036854775808"), Err(IntErrorKind::PosOverflow));
    assert_eq!(parse_i64("-"), Err(IntErrorKind::InvalidDigit));
    assert_eq!(parse_i64("+12"), Ok(12));
    assert_eq!(parse_i64("-0"), Ok(0));
}

#[test]
fn parsing_agrees_with_std() {
    for s in ["0", "007", "+5", "-5", "", "+", "-", "12a", "99999999999999999999", "-42"] {
        let std_result = s.parse::<i64>().map_err(|e| format!("{:?}", e.kind()));
        let ours = parse_i64(s).map_err(|k| format!("{:?}", k));
        assert_eq!(ours, std_result, "{s}");
        let std_result = s.parse::<u32>().map_err(|e| format!("{:?}", e.kind()));
        let ours = parse_unsigned_text(s, u32::MAX as u64)
            .map(|n| n as u32)
            .map_err(|k| format!("{:?}", k));
        assert_eq!(ours, std_result, "{s}");
    }
}

#[test]
fn error_messages_match_std() {
    assert_eq!(IntErrorKind::Empty.message(), "cannot parse integer from empty string");
    assert_eq!(IntErrorKind::InvalidDigit.message(), "invalid digit found in string");
    assert_eq!(
        IntErrorKind::PosOverflow.message(),
        "number too large to fit in target type"
    );
    assert_eq!(
        IntErrorKind::NegOverflow.message(),
        "number too small to fit in target type"
    );
}

#[test]
fn decimal_rendering() {
    for n in [0u64, 7, 10, 99, 100, 12345, u64::MAX] {
        let mut s = String::from("n=");
        append_decimal(&mut s, n);
        assert_eq!(s, format!("n={n}"));
        assert_eq!(parse_unsigned_text(&s[2..], u64::MAX), Ok(n));
    }
}
