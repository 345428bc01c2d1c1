use nha_asm::immediate::parse_decimal_u16;
use nha_asm::immediate::parse_immediate;
use nha_asm::immediate::MAX_IMMEDIATE;

#[test]
fn decimal_numbers_are_read() {
    assert_eq!(parse_decimal_u16("0"), Some(0));
    assert_eq!(parse_decimal_u16("100"), Some(100));
    assert_eq!(parse_decimal_u16("65535"), Some(65535));
    assert_eq!(parse_decimal_u16("+7"), Some(7));
    assert_eq!(parse_decimal_u16("007"), Some(7));
    assert_eq!(parse_decimal_u16("0000000000000000000000000012"), Some(12));
}

#[test]
fn what_is_no_number_is_rejected() {
    assert_eq!(parse_decimal_u16(""), None);
    assert_eq!(parse_decimal_u16("+"), None);
    assert_eq!(parse_decimal_u16("-"), None);
    assert_eq!(parse_decimal_u16("-1"), None);
    assert_eq!(parse_decimal_u16("-0"), None);
    assert_eq!(parse_decimal_u16("++1"), None);
    assert_eq!(parse_decimal_u16("1+"), None);
    assert_eq!(parse_decimal_u16("12a"), None);
    assert_eq!(parse_decimal_u16(" 1"), None);
    assert_eq!(parse_decimal_u16("1 "), None);
    assert_eq!(parse_decimal_u16("0x10"), None);
    assert_eq!(parse_decimal_u16("١٢"), None);
    assert_eq!(parse_decimal_u16("65536"), None);
    assert_eq!(parse_decimal_u16("99999999999999999999999"), None);
    assert_eq!(parse_decimal_u16("70000x"), None);
}

#[test]
fn decimal_reading_agrees_with_the_standard_parser() {
    let samples = [
        "", "+", "-", "0", "+0", "-0", "1", "9", "10", "65535", "65536", "65534", "655350",
        "+65535", "+65536", "00065535", "000065536", "4294967295", "4294967296", "429496729600",
        "12345678901234567890123", "1a", "a1", "1 ", " 1", "+-1", "1_000", "٣", "１", "$1", "1.0",
    ];
    for s in samples {
        assert_eq!(parse_decimal_u16(s), s.parse::<u16>().ok(), "{:?}", s);
    }
    let mut n: u32 = 0;
    while n < 70000 {
        let text = n.to_string();
        assert_eq!(parse_decimal_u16(&text), text.parse::<u16>().ok(), "{}", n);
        n += 7;
    }
}

#[test]
fn immediates_need_a_dollar_and_fifteen_bits() {
    assert_eq!(MAX_IMMEDIATE, 32767);
    assert_eq!(parse_immediate("$0"), Some(0));
    assert_eq!(parse_immediate("$100"), Some(100));
    assert_eq!(parse_immediate("$32767"), Some(32767));
    assert_eq!(parse_immediate("$+5"), Some(5));
    assert_eq!(parse_immediate("$32768"), None);
    assert_eq!(parse_immediate("$65535"), None);
    assert_eq!(parse_immediate("$65536"), None);
    assert_eq!(parse_immediate("$"), None);
    assert_eq!(parse_immediate("$$1"), None);
    assert_eq!(parse_immediate("$-1"), None);
    assert_eq!(parse_immediate("$1A"), None);
    assert_eq!(parse_immediate("100"), None);
    assert_eq!(parse_immediate(""), None);
    assert_eq!(parse_immediate("D"), None);
}
