use montui::text::{
    format_duration, pad2_string, parse_centi, split_str, split_whitespace_str, str_eq,
    strip_trailing, trim_str, u64_to_dec_string,
};

#[test]
fn split_keeps_empty_segments() {
    let parts = split_str("a|b||c", '|');
    assert_eq!(parts, vec!["a", "b", "", "c"]);
}

#[test]
fn split_of_empty_text_is_one_empty_segment() {
    assert_eq!(split_str("", '|'), vec![""]);
}

#[test]
fn split_on_newlines() {
    let parts = split_str("one\ntwo\n", '\n');
    assert_eq!(parts, vec!["one", "two", ""]);
}

#[test]
fn split_whitespace_drops_empty_words() {
    let parts = split_whitespace_str("  alpha \t beta\ngamma  ");
    assert_eq!(parts, vec!["alpha", "beta", "gamma"]);
}

#[test]
fn split_whitespace_of_blank_text_is_empty() {
    assert_eq!(split_whitespace_str("   \t "), Vec::<String>::new());
}

#[test]
fn trim_removes_both_ends() {
    assert_eq!(trim_str("  padded \t"), "padded");
    assert_eq!(trim_str("bare"), "bare");
    assert_eq!(trim_str("   "), "");
}

#[test]
fn strip_trailing_removes_all_occurrences() {
    assert_eq!(strip_trailing("12.5%", '%'), "12.5");
    assert_eq!(strip_trailing("12.5%%", '%'), "12.5");
    assert_eq!(strip_trailing("12.5", '%'), "12.5");
}

#[test]
fn parse_centi_exact_values() {
    assert_eq!(parse_centi("12.34"), 1234);
    assert_eq!(parse_centi("7"), 700);
    assert_eq!(parse_centi("0.5"), 50);
    assert_eq!(parse_centi(".5"), 50);
    assert_eq!(parse_centi("3."), 300);
    assert_eq!(parse_centi("0.00"), 0);
}

#[test]
fn parse_centi_truncates_extra_fraction_digits() {
    assert_eq!(parse_centi("1.999"), 199);
}

#[test]
fn parse_centi_rejects_garbage_as_zero() {
    assert_eq!(parse_centi(""), 0);
    assert_eq!(parse_centi("."), 0);
    assert_eq!(parse_centi("abc"), 0);
    assert_eq!(parse_centi("1.2.3"), 0);
    assert_eq!(parse_centi("12a"), 0);
    assert_eq!(parse_centi("-5"), 0);
}

#[test]
fn parse_centi_saturates_huge_values() {
    assert_eq!(parse_centi("99999999999999999999999999"), u64::MAX);
}

#[test]
fn decimal_rendering() {
    assert_eq!(u64_to_dec_string(0), "0");
    assert_eq!(u64_to_dec_string(9), "9");
    assert_eq!(u64_to_dec_string(10), "10");
    assert_eq!(u64_to_dec_string(90061), "90061");
    assert_eq!(pad2_string(5), "05");
    assert_eq!(pad2_string(42), "42");
}

#[test]
fn duration_with_days() {
    assert_eq!(format_duration(90061).unwrap(), "1d 01h 01m");
}

#[test]
fn duration_with_hours() {
    assert_eq!(format_duration(3661).unwrap(), "01h 01m");
}

#[test]
fn duration_with_minutes() {
    assert_eq!(format_duration(61).unwrap(), "01m 01s");
}

#[test]
fn duration_with_seconds_only() {
    assert_eq!(format_duration(5).unwrap(), "05s");
    assert_eq!(format_duration(0).unwrap(), "00s");
}

#[test]
fn str_eq_compares_contents() {
    assert!(str_eq("abc", "abc"));
    assert!(!str_eq("abc", "abd"));
    assert!(!str_eq("abc", "abcd"));
    assert!(str_eq("", ""));
}
