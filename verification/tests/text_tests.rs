use bandwidth_monitor::text::{i64_to_decimal, parse_i64, parse_u128, trim_whitespace, u128_to_decimal};

#[test]
fn decimal_text_of_unsigned() {
    assert_eq!(u128_to_decimal(0), "0");
    assert_eq!(u128_to_decimal(7), "7");
    assert_eq!(u128_to_decimal(1234567890), "1234567890");
    assert_eq!(u128_to_decimal(u128::MAX), u128::MAX.to_string());
}

#[test]
fn decimal_text_of_signed() {
    assert_eq!(i64_to_decimal(0), "0");
    assert_eq!(i64_to_decimal(-42), "-42");
    assert_eq!(i64_to_decimal(1700000000), "1700000000");
    assert_eq!(i64_to_decimal(i64::MIN), i64::MIN.to_string());
    assert_eq!(i64_to_decimal(i64::MAX), i64::MAX.to_string());
}

#[test]
fn unsigned_parse_matches_std() {
    let cases = [
        "0", "+12", "12", "", "+", "-", "-1", "12a", " 12", "007",
        "340282366920938463463374607431768211455",
        "340282366920938463463374607431768211456",
        "99999999999999999999999999999999999999999",
        "١٢",
    ];
    for c in cases.iter() {
        assert_eq!(parse_u128(c), c.parse::<u128>().ok(), "input {:?}", c);
    }
}

#[test]
fn signed_parse_matches_std() {
    let cases = [
        "0", "-0", "+5", "-5", "-", "+", "", "--1", "+-1", "-+1",
        "9223372036854775807", "9223372036854775808",
        "-9223372036854775808", "-9223372036854775809", "1 ",
    ];
    for c in cases.iter() {
        assert_eq!(parse_i64(c), c.parse::<i64>().ok(), "input {:?}", c);
    }
}

#[test]
fn trim_matches_std() {
    let cases = ["  12\t", "\u{3000}x\u{2028}", "   ", "", "a b", "\u{85}\u{a0}y\u{200b}", "\n\r z \u{1680}"];
    for c in cases.iter() {
        assert_eq!(trim_whitespace(c), c.trim(), "input {:?}", c);
    }
}
