use process_monitor::text::{
    is_whitespace, lower_code_of, matches_ignoring_case, parse_digits, parse_i32, parse_u64,
    push_decimal, push_signed_decimal, to_chars, trim_bounds,
};

fn chars(s: &str) -> Vec<char> {
    s.chars().collect()
}

#[test]
fn white_space_is_the_unicode_property() {
    for code in 0..=0x10FFFFu32 {
        if let Some(c) = char::from_u32(code) {
            assert_eq!(is_whitespace(c), c.is_whitespace());
        }
    }
}

#[test]
fn lower_code_is_ascii_lower_case() {
    for code in 0..=0x10FFFFu32 {
        if let Some(c) = char::from_u32(code) {
            assert_eq!(lower_code_of(c), c.to_ascii_lowercase() as u32);
        }
    }
}

#[test]
fn chars_of_a_text() {
    assert_eq!(to_chars("aé\u{1F600}z"), vec!['a', 'é', '\u{1F600}', 'z']);
    assert!(to_chars("").is_empty());
}

#[test]
fn trim_bounds_agree_with_trim() {
    for s in ["", " ", "a", " a", "a ", "  a b  ", "\t\n", "\u{3000}x\u{2000}y\u{a0}", "\u{200b} a"] {
        let c = chars(s);
        let (start, end) = trim_bounds(&c);
        assert!(start <= end && end <= c.len());
        let own: String = c[start..end].iter().collect();
        assert_eq!(own, s.trim());
    }
}

#[test]
fn trim_of_only_white_space_is_empty_at_the_end() {
    let c = chars("   ");
    assert_eq!(trim_bounds(&c), (3, 3));
}

#[test]
fn matching_ignores_ascii_case_only() {
    let c = chars("xxCpUyy");
    assert!(matches_ignoring_case(&c, 2, 5, "cpu"));
    assert!(matches_ignoring_case(&c, 2, 5, "CPU"));
    assert!(!matches_ignoring_case(&c, 2, 6, "cpu"));
    assert!(!matches_ignoring_case(&c, 1, 4, "cpu"));
    assert!(matches_ignoring_case(&c, 3, 3, ""));
    let k = chars("\u{212a}");
    assert!(!matches_ignoring_case(&k, 0, 1, "k"));
    let e = chars("É");
    assert!(!matches_ignoring_case(&e, 0, 1, "é"));
}

#[test]
fn digits_within_a_limit() {
    let c = chars("a0123b");
    assert_eq!(parse_digits(&c, 1, 5, 123), Some(123));
    assert_eq!(parse_digits(&c, 1, 5, 122), None);
    assert_eq!(parse_digits(&c, 1, 6, 1000), None);
    assert_eq!(parse_digits(&c, 0, 5, 1000), None);
    assert_eq!(parse_digits(&c, 2, 2, 1000), None);
    assert_eq!(parse_digits(&c, 1, 2, 0), Some(0));
    let big = chars("18446744073709551615");
    assert_eq!(parse_digits(&big, 0, big.len(), u64::MAX), Some(u64::MAX));
    let bigger = chars("18446744073709551616");
    assert_eq!(parse_digits(&bigger, 0, bigger.len(), u64::MAX), None);
    let huge = chars("99999999999999999999999999999999999999999999999999");
    assert_eq!(parse_digits(&huge, 0, huge.len(), u64::MAX), None);
}

#[test]
fn i32_agrees_with_the_standard_parser() {
    for s in [
        "", "0", "-0", "+0", "1", "-1", "+1", "0012", "2147483647", "2147483648", "-2147483648",
        "-2147483649", "+2147483647", "+2147483648", "12345678901234567890", "-", "+", "+-1", "1 ",
        " 1", "1a", "a1", "٣", "१", "1e3", "--1",
    ] {
        let c = chars(s);
        assert_eq!(parse_i32(&c, 0, c.len()), s.parse::<i32>().ok());
    }
}

#[test]
fn u64_agrees_with_the_standard_parser() {
    for s in [
        "", "0", "-0", "+0", "1", "-1", "+1", "0012", "18446744073709551615",
        "18446744073709551616", "+18446744073709551615", "-", "+", "++1", "1 ", "1a", "٣",
    ] {
        let c = chars(s);
        assert_eq!(parse_u64(&c, 0, c.len()), s.parse::<u64>().ok());
    }
}

#[test]
fn parsing_reads_only_the_range() {
    let c = chars("ab-42cd");
    assert_eq!(parse_i32(&c, 2, 5), Some(-42));
    assert_eq!(parse_i32(&c, 3, 5), Some(42));
    assert_eq!(parse_i32(&c, 2, 6), None);
    assert_eq!(parse_u64(&c, 3, 4), Some(4));
}

#[test]
fn decimal_agrees_with_to_string() {
    for n in [0u64, 1, 9, 10, 11, 99, 100, 101, 12345, 1_000_000, u64::MAX - 1, u64::MAX] {
        let mut out = String::from("n=");
        push_decimal(&mut out, n);
        assert_eq!(out, format!("n={}", n));
    }
}

#[test]
fn signed_decimal_agrees_with_to_string() {
    for n in [0i64, 1, -1, 9, -9, 10, -10, 2147483647, -2147483648, i64::MAX, i64::MIN, i64::MIN + 1] {
        let mut out = String::new();
        push_signed_decimal(&mut out, n);
        assert_eq!(out, n.to_string());
    }
}
