use cpu16::compiler::numbers::{decimal_chars, i32_chars, parse_i32, parse_u16, parse_usize, IntError};

fn text(v: Vec<char>) -> String {
    v.into_iter().collect()
}

#[test]
fn parse_u16_reads_numbers_and_plus_sign() {
    assert_eq!(parse_u16("0"), Ok(0));
    assert_eq!(parse_u16("65535"), Ok(65535));
    assert_eq!(parse_u16("+7"), Ok(7));
    assert_eq!(parse_u16("007"), Ok(7));
}

#[test]
fn parse_u16_errors() {
    assert_eq!(parse_u16(""), Err(IntError::Empty));
    assert_eq!(parse_u16("+"), Err(IntError::InvalidDigit));
    assert_eq!(parse_u16("-1"), Err(IntError::InvalidDigit));
    assert_eq!(parse_u16("12a"), Err(IntError::InvalidDigit));
    assert_eq!(parse_u16("65536"), Err(IntError::PosOverflow));
    // The overflow is met before the letter.
    assert_eq!(parse_u16("999999x"), Err(IntError::PosOverflow));
}

#[test]
fn parse_i32_limits() {
    assert_eq!(parse_i32("-2147483648"), Ok(i32::MIN));
    assert_eq!(parse_i32("2147483647"), Ok(i32::MAX));
    assert_eq!(parse_i32("-2147483649"), Err(IntError::NegOverflow));
    assert_eq!(parse_i32("2147483648"), Err(IntError::PosOverflow));
    assert_eq!(parse_i32("-"), Err(IntError::InvalidDigit));
    assert_eq!(parse_i32("-12"), Ok(-12));
    assert_eq!(parse_i32("X"), Err(IntError::InvalidDigit));
}

#[test]
fn parse_usize_reads_string_markers() {
    assert_eq!(parse_usize("12"), Ok(12));
    assert_eq!(parse_usize("1x"), Err(IntError::InvalidDigit));
}

#[test]
fn numerals_are_written_as_to_string_writes_them() {
    assert_eq!(text(decimal_chars(0)), "0");
    assert_eq!(text(decimal_chars(1234)), "1234");
    assert_eq!(text(i32_chars(-42)), "-42");
    assert_eq!(text(i32_chars(i32::MIN)), i32::MIN.to_string());
    assert_eq!(text(i32_chars(7)), "7");
}

#[test]
fn written_numeral_reads_back() {
    for n in [0usize, 9, 10, 65535, 123456] {
        assert_eq!(parse_usize(&text(decimal_chars(n))), Ok(n));
    }
}

#[test]
fn int_error_messages() {
    assert_eq!(IntError::Empty.message(), "cannot parse integer from empty string");
    assert_eq!(IntError::InvalidDigit.message(), "invalid digit found in string");
    assert_eq!(IntError::PosOverflow.message(), "number too large to fit in target type");
    assert_eq!(IntError::NegOverflow.message(), "number too small to fit in target type");
    assert_eq!(
        IntError::InvalidDigit.message(),
        "x".parse::<u16>().unwrap_err().to_string()
    );
}
