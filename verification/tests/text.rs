use fsh::text::{
    chars_of, i32_to_string, is_digit, is_isize, is_whitespace, parse_i32, parse_usize,
    same_text, string_of, usize_to_string,
};

#[test]
fn text_helpers_parse_and_print_numbers() {
    assert_eq!(usize_to_string(0), "0");
    assert_eq!(usize_to_string(1234567890), "1234567890");
    assert_eq!(i32_to_string(-70), "-70");
    assert_eq!(i32_to_string(i32::MAX), "2147483647");
    assert_eq!(parse_usize(&chars_of("+17")), Some(17));
    assert_eq!(parse_usize(&chars_of("0017")), Some(17));
    assert_eq!(parse_usize(&chars_of("-1")), None);
    assert_eq!(parse_usize(&chars_of("")), None);
    assert_eq!(parse_usize(&chars_of("+")), None);
    assert_eq!(parse_usize(&chars_of("1 ")), None);
    assert_eq!(parse_usize(&chars_of(&usize::MAX.to_string())), Some(usize::MAX));
    assert_eq!(parse_usize(&chars_of("18446744073709551616")), None);
    assert_eq!(parse_i32(&chars_of("-2147483648")), Some(i32::MIN));
    assert_eq!(parse_i32(&chars_of("2147483648")), None);
    assert_eq!(parse_i32(&chars_of("-")), None);
    assert_eq!(parse_i32(&chars_of("+-1")), None);
    assert!(is_isize(&chars_of("-9223372036854775808")));
    assert!(!is_isize(&chars_of("9223372036854775808")));
    assert!(!is_isize(&chars_of("12a")));
    assert!(is_whitespace(' ') && is_whitespace('\t') && is_whitespace('\u{3000}'));
    assert!(!is_whitespace('a') && !is_whitespace('\u{200b}'));
    for c in ['\n', '\r', '\u{0b}', '\u{0c}', '\u{85}', '\u{a0}', '\u{1680}', '\u{2000}', '\u{200a}',
        '\u{2028}', '\u{2029}', '\u{202f}', '\u{205f}', 'x', '0', '\u{1c}', '\u{180e}', '\u{feff}']
    {
        assert_eq!(is_whitespace(c), c.is_whitespace());
    }
    assert!(is_digit('0') && is_digit('9') && !is_digit('a') && !is_digit('٣'));
    assert!(same_text("ab", "ab") && !same_text("ab", "abc") && !same_text("ab", "ac"));
    assert_eq!(string_of(&chars_of("héllo")), "héllo");
}
