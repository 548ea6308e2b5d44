use cafebot::text::{i64_text, parse_i32, parse_u32, parse_u64, trim, u64_text};

#[test]
fn numbers_as_text() {
    assert_eq!(u64_text(0), "0");
    assert_eq!(u64_text(18446744073709551615), "18446744073709551615");
    assert_eq!(i64_text(-42), "-42");
    assert_eq!(i64_text(i64::MIN), "-9223372036854775808");
}

#[test]
fn parsing_follows_str_parse() {
    for s in ["0", "+5", "-5", "", "-", "+", "12a", "2147483647", "2147483648", "-2147483648", "-2147483649", " 1"] {
        assert_eq!(parse_i32(s), s.parse::<i32>().ok(), "{}", s);
        assert_eq!(parse_u32(s), s.parse::<u32>().ok(), "{}", s);
        assert_eq!(parse_u64(s), s.parse::<u64>().ok(), "{}", s);
    }
    assert_eq!(parse_u64("18446744073709551616"), None);
    assert_eq!(parse_u64("18446744073709551615"), Some(u64::MAX));
}

#[test]
fn trimming() {
    assert_eq!(trim("  hi there \n"), "hi there");
    assert_eq!(trim("\t\t"), "");
    assert_eq!(trim("x"), "x");
    // Unicode whitespace, not only ASCII
    assert_eq!(trim("\u{3000}x y\u{2003}"), "x y");
}
