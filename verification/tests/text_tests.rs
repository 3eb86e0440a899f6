use oil_cop::render::color::humanize_age;
use oil_cop::text::{
    contains_str, ellipsize_str, i64_to_string, join_strings, pad, split_lines_str,
    str_eq, strip_prefix, trim_str, usize_to_string,
};

#[test]
fn humanize_age_formats() {
    assert_eq!(humanize_age(None), "—");
    assert_eq!(humanize_age(Some(-5)), "—");
    assert_eq!(humanize_age(Some(0)), "0s ago");
    assert_eq!(humanize_age(Some(59)), "59s ago");
    assert_eq!(humanize_age(Some(60)), "1m ago");
    assert_eq!(humanize_age(Some(3599)), "59m ago");
    assert_eq!(humanize_age(Some(3600 + 5 * 60)), "1h05m ago");
    assert_eq!(humanize_age(Some(9000)), "2h30m ago");
    assert_eq!(humanize_age(Some(3 * 86400 + 4 * 3600 + 59)), "3d4h ago");
}

#[test]
fn decimal_strings() {
    assert_eq!(i64_to_string(0), "0");
    assert_eq!(i64_to_string(-42), "-42");
    assert_eq!(i64_to_string(i64::MIN), i64::MIN.to_string());
    assert_eq!(i64_to_string(i64::MAX), i64::MAX.to_string());
    assert_eq!(usize_to_string(1234567), "1234567");
}

#[test]
fn padding_trimming_and_cutting() {
    assert_eq!(pad("ab", 4), "ab  ");
    assert_eq!(pad("abcdef", 4), "abcdef");
    assert_eq!(pad("—", 3), "—  ");
    assert_eq!(trim_str(" \t x y \n"), "x y");
    assert_eq!(trim_str("\u{3000}z\u{a0}"), "z");
    assert_eq!(ellipsize_str("abcdef", 5, 3, "..."), "abc...");
    assert_eq!(ellipsize_str("abcde", 5, 3, "..."), "abcde");
}

#[test]
fn joining_splitting_and_searching() {
    assert_eq!(join_strings(&vec![], ", "), "");
    assert_eq!(join_strings(&vec!["a".to_string()], ", "), "a");
    assert_eq!(join_strings(&vec!["a".to_string(), "b".to_string(), "c".to_string()], ", "), "a, b, c");
    assert_eq!(split_lines_str("a\nb\n"), vec!["a".to_string(), "b".to_string(), String::new()]);
    assert_eq!(split_lines_str(""), vec![String::new()]);
    assert!(contains_str("city_resolve_failed", "city_resolve"));
    assert!(!contains_str("city", "city_resolve"));
    assert!(contains_str("x", ""));
    assert_eq!(strip_prefix("polecat/x-1", "polecat/").as_deref(), Some("x-1"));
    assert_eq!(strip_prefix("other/x", "polecat/"), None);
    assert!(str_eq("ab", "ab") && !str_eq("ab", "abc"));
    assert_eq!(oil_cop::text::concat("ab", "cd"), "abcd");
}
