use uniqx::decimal::{chars_of, i16_to_decimal, pad_left_zeros, parse_i64, u64_to_decimal};

#[test]
fn decimal_text_of_unsigned_numbers() {
    assert_eq!(u64_to_decimal(0), "0");
    assert_eq!(u64_to_decimal(7), "7");
    assert_eq!(u64_to_decimal(10), "10");
    assert_eq!(u64_to_decimal(5432), "5432");
    assert_eq!(u64_to_decimal(u64::MAX), "18446744073709551615");
}

#[test]
fn decimal_text_of_signed_numbers() {
    assert_eq!(i16_to_decimal(0), "0");
    assert_eq!(i16_to_decimal(42), "42");
    assert_eq!(i16_to_decimal(-5), "-5");
    assert_eq!(i16_to_decimal(i16::MIN), "-32768");
    assert_eq!(i16_to_decimal(i16::MAX), "32767");
}

#[test]
fn zero_padding_matches_the_format_width() {
    assert_eq!(pad_left_zeros(String::from("7"), 5), format!("{:0>5}", 7));
    assert_eq!(pad_left_zeros(String::from("-5"), 5), format!("{:0>5}", -5));
    assert_eq!(pad_left_zeros(String::from("123456"), 5), "123456");
    assert_eq!(pad_left_zeros(String::from("12345"), 5), "12345");
}

#[test]
fn parsing_i64_follows_std() {
    for text in [
        "42", "-42", "+7", "0", "-0", "", "-", "+", "12a", " 1", "1 ", "--1", "+-1",
        "9223372036854775807", "9223372036854775808", "-9223372036854775808",
        "-9223372036854775809", "000123", "99999999999999999999999",
    ] {
        assert_eq!(parse_i64(text), text.parse::<i64>().ok(), "input {:?}", text);
    }
}

#[test]
fn parsing_reads_rendered_numbers_back() {
    for n in [0u64, 9, 10, 65536, 9223372036854775807] {
        assert_eq!(parse_i64(&u64_to_decimal(n)), Some(n as i64));
    }
}

#[test]
fn chars_of_keeps_every_character() {
    assert_eq!(chars_of("héllo"), vec!['h', 'é', 'l', 'l', 'o']);
    assert_eq!(chars_of(""), Vec::<char>::new());
}
