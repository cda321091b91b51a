use nmm::parse_int;
use nmm::Error;
use std::num::IntErrorKind;

fn failure(input: &str) -> IntErrorKind {
    match parse_int(input) {
        Err(Error::ParseInt { source }) => source.kind().clone(),
        other => panic!("{:?} for {:?}", other, input),
    }
}

#[test]
fn literals_in_each_base() {
    assert_eq!(parse_int("0"), Ok(0));
    assert_eq!(parse_int("0x1A"), Ok(26));
    assert_eq!(parse_int("017"), Ok(15));
    assert_eq!(parse_int("42"), Ok(42));
}

#[test]
fn octal_rejects_the_digit_eight() {
    assert_eq!(failure("08"), IntErrorKind::InvalidDigit);
    assert_eq!(failure("019"), IntErrorKind::InvalidDigit);
}

#[test]
fn hexadecimal_takes_both_cases() {
    assert_eq!(parse_int("0xff"), Ok(255));
    assert_eq!(parse_int("0xFF"), Ok(255));
    assert_eq!(parse_int("0xaBcD"), Ok(0xABCD));
    assert_eq!(parse_int("0x8AFBD8"), Ok(0x8AFBD8));
}

#[test]
fn capital_x_is_no_hexadecimal_mark() {
    assert_eq!(failure("0X1A"), IntErrorKind::InvalidDigit);
}

#[test]
fn limits_of_32_bits() {
    assert_eq!(parse_int("4294967295"), Ok(u32::MAX));
    assert_eq!(failure("4294967296"), IntErrorKind::PosOverflow);
    assert_eq!(parse_int("0xffffffff"), Ok(u32::MAX));
    assert_eq!(failure("0x100000000"), IntErrorKind::PosOverflow);
    assert_eq!(parse_int("037777777777"), Ok(u32::MAX));
    assert_eq!(failure("040000000000"), IntErrorKind::PosOverflow);
}

#[test]
fn leading_zeros_do_not_overflow() {
    assert_eq!(parse_int("0x00000000000000000001"), Ok(1));
    assert_eq!(parse_int("000000000000000000000007"), Ok(7));
    assert_eq!(parse_int("00"), Ok(0));
}

#[test]
fn empty_texts_are_errors() {
    assert_eq!(failure(""), IntErrorKind::Empty);
    assert_eq!(failure("0x"), IntErrorKind::Empty);
}

#[test]
fn a_plus_sign_may_lead_the_digits() {
    assert_eq!(parse_int("+5"), Ok(5));
    assert_eq!(parse_int("0x+1A"), Ok(26));
    assert_eq!(parse_int("0+7"), Ok(7));
    assert_eq!(failure("+"), IntErrorKind::InvalidDigit);
    assert_eq!(failure("++5"), IntErrorKind::InvalidDigit);
}

#[test]
fn signs_and_blanks_are_no_digits() {
    assert_eq!(failure("-1"), IntErrorKind::InvalidDigit);
    assert_eq!(failure(" 42"), IntErrorKind::InvalidDigit);
    assert_eq!(failure("42 "), IntErrorKind::InvalidDigit);
    assert_eq!(failure("4_2"), IntErrorKind::InvalidDigit);
    assert_eq!(failure("1A"), IntErrorKind::InvalidDigit);
    assert_eq!(failure("0xG"), IntErrorKind::InvalidDigit);
    assert_eq!(failure("٣"), IntErrorKind::InvalidDigit);
}

#[test]
fn decimal_value_is_positional() {
    assert_eq!(parse_int("1234567"), Ok(1_234_567));
    assert_eq!(parse_int("0777"), Ok(511));
    assert_eq!(parse_int("0x10"), Ok(16));
    assert_eq!(parse_int("010"), Ok(8));
    assert_eq!(parse_int("10"), Ok(10));
}
