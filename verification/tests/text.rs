use aj_web::text::{
    chars_of, decimal_i64, decimal_u64, join_i32, join_i64, join_strings, join_usize, parse_i64,
    parse_u8, parse_unsigned_upto, parse_usize, str_contains, str_starts_with, string_of,
    trim_chars,
};

#[test]
fn decimals() {
    assert_eq!(decimal_i64(0), "0");
    assert_eq!(decimal_i64(-120), "-120");
    assert_eq!(decimal_i64(i64::MAX), "9223372036854775807");
    assert_eq!(decimal_u64(u64::MAX), "18446744073709551615");
}

#[test]
fn integer_parsing_like_from_str() {
    assert_eq!(parse_i64("-9223372036854775808"), Some(i64::MIN));
    assert_eq!(parse_i64("9223372036854775808"), None);
    assert_eq!(parse_i64("+12"), Some(12));
    assert_eq!(parse_i64("-"), None);
    assert_eq!(parse_i64(""), None);
    assert_eq!(parse_i64("1 "), None);
    assert_eq!(parse_u8("255"), Some(255));
    assert_eq!(parse_u8("256"), None);
    assert_eq!(parse_u8("-0"), None);
    assert_eq!(parse_usize("007"), Some(7));
    assert_eq!(parse_unsigned_upto("100", 99), None);
    for s in ["0", "42", "-7", "+3", "x", "", "99999999999999999999"] {
        assert_eq!(parse_i64(s), s.parse::<i64>().ok());
        assert_eq!(parse_u8(s), s.parse::<u8>().ok());
    }
}

#[test]
fn searching_text() {
    assert!(str_contains("?tab=posts", "tab="));
    assert!(!str_contains("abc", "abd"));
    assert!(str_contains("abc", ""));
    assert!(str_starts_with("https://x", "https"));
    assert!(!str_starts_with("http", "https"));
}

#[test]
fn trimming_and_chars() {
    let v = chars_of("  a b \n");
    assert_eq!(string_of(&trim_chars(&v)), "a b");
    assert_eq!(string_of(&trim_chars(&chars_of("\u{3000}x\u{a0}"))), "x");
    assert_eq!(string_of(&chars_of("ёж")), "ёж");
}

#[test]
fn joining() {
    assert_eq!(join_strings(&vec!["a".to_string(), "b".to_string()], ", "), "a, b");
    assert_eq!(join_strings(&vec![], ","), "");
    assert_eq!(join_i32(&vec![1, -2, 3], ", "), "1, -2, 3");
    assert_eq!(join_usize(&vec![4], ", "), "4");
    assert_eq!(join_i64(&vec![10, 20], ","), "10,20");
}
