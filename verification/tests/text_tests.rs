use owl_control::text::{chars_of, lines, parse_u64, string_from_chars, trim};

#[test]
fn lines_splits_on_newlines_and_drops_carriage_returns() {
    assert_eq!(lines("a\r\nb\nc"), vec!["a".to_string(), "b".to_string(), "c".to_string()]);
}

#[test]
fn lines_ignores_final_newline_and_keeps_inner_empty_lines() {
    assert_eq!(lines("x\n\ny\n"), vec!["x".to_string(), "".to_string(), "y".to_string()]);
    assert_eq!(lines(""), Vec::<String>::new());
    assert_eq!(lines("\n"), vec!["".to_string()]);
}

#[test]
fn lines_keeps_lone_carriage_return_at_end() {
    assert_eq!(lines("a\r"), vec!["a\r".to_string()]);
}

#[test]
fn trim_removes_unicode_whitespace_at_both_ends() {
    assert_eq!(trim("  abc def \n\t"), "abc def");
    assert_eq!(trim("\u{3000}id\u{a0}"), "id");
    assert_eq!(trim("   "), "");
}

#[test]
fn parse_u64_accepts_plus_and_digits_only() {
    assert_eq!(parse_u64("1700000000"), Some(1_700_000_000));
    assert_eq!(parse_u64("+5"), Some(5));
    assert_eq!(parse_u64("007"), Some(7));
    assert_eq!(parse_u64("18446744073709551615"), Some(u64::MAX));
}

#[test]
fn parse_u64_rejects_malformed_and_overflowing_numbers() {
    assert_eq!(parse_u64(""), None);
    assert_eq!(parse_u64("+"), None);
    assert_eq!(parse_u64("-1"), None);
    assert_eq!(parse_u64("12a"), None);
    assert_eq!(parse_u64(" 12"), None);
    assert_eq!(parse_u64("18446744073709551616"), None);
}

#[test]
fn chars_round_trip_through_string() {
    let v = chars_of("héllo");
    assert_eq!(v, vec!['h', 'é', 'l', 'l', 'o']);
    assert_eq!(string_from_chars(&v), "héllo");
}
