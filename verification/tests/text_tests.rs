use workflow_engine::text::{i64_to_string, is_blank, parse_i64, text_eq, IntErrorKind};

#[test]
fn blank_texts() {
    assert!(is_blank(""));
    assert!(is_blank("  \t\n"));
    assert!(is_blank("\u{A0}\u{3000}"));
    assert!(!is_blank("  a "));
}

#[test]
fn parse_decimal_values() {
    assert_eq!(parse_i64("0"), Ok(0));
    assert_eq!(parse_i64("+42"), Ok(42));
    assert_eq!(parse_i64("-17"), Ok(-17));
    assert_eq!(parse_i64("9223372036854775807"), Ok(i64::MAX));
    assert_eq!(parse_i64("-9223372036854775808"), Ok(i64::MIN));
}

#[test]
fn parse_errors_match_std() {
    for text in ["", "+", "-", "12a", "a12", " 1", "9223372036854775808", "-9223372036854775809", "99999999999999999999x", "1x99999999999999999999", "١٢"] {
        let expected = text.parse::<i64>().map_err(|e| match e.kind() {
            std::num::IntErrorKind::Empty => IntErrorKind::Empty,
            std::num::IntErrorKind::InvalidDigit => IntErrorKind::InvalidDigit,
            std::num::IntErrorKind::PosOverflow => IntErrorKind::PosOverflow,
            std::num::IntErrorKind::NegOverflow => IntErrorKind::NegOverflow,
            _ => unreachable!(),
        });
        assert_eq!(parse_i64(text), expected, "text {:?}", text);
    }
}

#[test]
fn decimal_text_round_trip() {
    for v in [0i64, 7, -7, 10, 1234567890, i64::MAX, i64::MIN] {
        let text = i64_to_string(v);
        assert_eq!(text, v.to_string());
        assert_eq!(parse_i64(&text), Ok(v));
    }
}

#[test]
fn text_equality() {
    assert!(text_eq("cancel", "cancel"));
    assert!(!text_eq("cancel", "cancel "));
    assert!(!text_eq("", "x"));
}
