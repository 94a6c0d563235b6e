use tokio_erp::calendar::{civil_from_days, days_from_civil, format_date, is_leap_year, month_length};
use tokio_erp::text::{
    contains_str, i64_text, i64_text_padded, join_strings, parse_i32, parse_i64, parse_u32, replace_str, scrub_runs, split_char,
    str_less, title_from_scrub, trim,
};

#[test]
fn day_numbers_round_trip() {
    assert_eq!(days_from_civil(1970, 1, 1), 0);
    assert_eq!(days_from_civil(2000, 3, 1), 11017);
    assert_eq!(days_from_civil(1969, 12, 31), -1);
    for days in [-800_000i64, -1, 0, 59, 60, 11017, 19_723, 2_932_896] {
        let (y, m, d) = civil_from_days(days);
        assert_eq!(days_from_civil(y, m, d), days);
    }
    assert_eq!(civil_from_days(19_723), (2024, 1, 1));
    assert_eq!(civil_from_days(19_782), (2024, 2, 29));
}

#[test]
fn leap_years_and_month_lengths() {
    assert!(is_leap_year(2000));
    assert!(is_leap_year(2024));
    assert!(!is_leap_year(1900));
    assert!(!is_leap_year(2023));
    assert_eq!(month_length(2024, 2), 29);
    assert_eq!(month_length(2023, 2), 28);
    assert_eq!(month_length(2023, 4), 30);
    assert_eq!(month_length(2023, 12), 31);
    assert_eq!(format_date(2024, 3, 5), "2024-03-05");
    assert_eq!(format_date(987, 12, 31), "0987-12-31");
}

#[test]
fn numbers_read_and_written() {
    assert_eq!(parse_i32("-42"), Some(-42));
    assert_eq!(parse_i32("+7"), Some(7));
    assert_eq!(parse_i32("2147483648"), None);
    assert_eq!(parse_i32(""), None);
    assert_eq!(parse_u32("12a"), None);
    assert_eq!(parse_u32("0012"), Some(12));
    assert_eq!(parse_i64("-9223372036854775808"), Some(i64::MIN));
    assert_eq!(i64_text(-305), "-305");
    assert_eq!(i64_text(0), "0");
    assert_eq!(i64_text_padded(7, 3), "007");
}

#[test]
fn text_pieces() {
    assert_eq!(split_char("a,,b", ','), vec!["a", "", "b"]);
    assert_eq!(split_char("", ','), vec![""]);
    assert_eq!(trim("  x y \t"), "x y");
    assert_eq!(join_strings(&vec!["a".to_string(), "b".to_string()], ", "), "a, b");
    assert_eq!(replace_str("Group by Account", "Group by", "Categorize by"), "Categorize by Account");
    assert_eq!(replace_str("aaa", "aa", "b"), "ba");
    assert_eq!(title_from_scrub("base_net_amount"), "Base Net Amount");
    assert_eq!(scrub_runs(" Total  Budget (Q1) "), "total_budget_q1");
}

#[test]
fn text_order_is_lexicographic() {
    assert!(str_less("abc", "abd"));
    assert!(str_less("ab", "abc"));
    assert!(!str_less("abc", "abc"));
    assert!(!str_less("b", "abc"));
    assert!(str_less("", "a"));
}

#[test]
fn text_contains_a_pattern() {
    assert!(contains_str("{\"additional_discount_percentage\": 1}", "\"additional_discount_percentage\""));
    assert!(contains_str("abc", ""));
    assert!(contains_str("abc", "bc"));
    assert!(!contains_str("ab", "abc"));
    assert!(!contains_str("abc", "bd"));
}
