use discord_bots::config::check_version;
use discord_bots::text::{eq_ignore_ascii_case, parse_decimal, running_time};

#[test]
fn current_version_is_compatible() {
    let content = "# comment\nversion = \"0.4\"\n[kaenguru]\n";
    assert_eq!(check_version(content, "0.4"), Some((true, "0.4".to_string())));
}

#[test]
fn older_versions_are_compatible() {
    assert_eq!(check_version("version = \"0.2\"", "0.4"), Some((true, "0.2".to_string())));
    assert_eq!(check_version("version=\"0.3\"  # old", "0.4"), Some((true, "0.3".to_string())));
}

#[test]
fn other_version_is_incompatible() {
    assert_eq!(check_version("version = \"1.0\"\n", "0.4"), Some((false, "1.0".to_string())));
    assert_eq!(check_version("version = \".\"\n", "0.4"), Some((false, ".".to_string())));
}

#[test]
fn first_version_line_counts() {
    let content = "name = \"x\"\nversion = \"0.1\"\nversion = \"0.3\"\n";
    assert_eq!(check_version(content, "0.4"), Some((false, "0.1".to_string())));
}

#[test]
fn malformed_lines_are_skipped() {
    let content = " version = \"0.3\"\nversion = \"0.3\" trailing\nversion = 0.3\nversion = \"0.2\"";
    assert_eq!(check_version(content, "0.4"), Some((true, "0.2".to_string())));
}

#[test]
fn missing_version() {
    assert_eq!(check_version("", "0.4"), None);
    assert_eq!(check_version("[kaenguru]\ntoken = \"x\"\n", "0.4"), None);
    assert_eq!(check_version("version = \"03\"", "0.4"), None);
}

#[test]
fn ascii_case_comparison() {
    assert!(eq_ignore_ascii_case("Trace", "tRACE"));
    assert!(!eq_ignore_ascii_case("trace", "traces"));
    assert!(!eq_ignore_ascii_case("ä", "Ä"));
}

#[test]
fn decimal_numbers() {
    assert_eq!(parse_decimal("10000000", u64::MAX), Some(10_000_000));
    assert_eq!(parse_decimal("+42", u64::MAX), Some(42));
    assert_eq!(parse_decimal("007", 10), Some(7));
    assert_eq!(parse_decimal("18446744073709551615", u64::MAX), Some(u64::MAX));
    assert_eq!(parse_decimal("18446744073709551616", u64::MAX), None);
    assert_eq!(parse_decimal("4294967296", u32::MAX as u64), None);
    assert_eq!(parse_decimal("11", 10), None);
    assert_eq!(parse_decimal("10", 10), Some(10));
    assert_eq!(parse_decimal("", u64::MAX), None);
    assert_eq!(parse_decimal("+", u64::MAX), None);
    assert_eq!(parse_decimal("-1", u64::MAX), None);
    assert_eq!(parse_decimal("12a", u64::MAX), None);
    assert_eq!(parse_decimal(" 12", u64::MAX), None);
}

#[test]
fn running_times() {
    assert_eq!(running_time(0), "00:00:00");
    assert_eq!(running_time(59), "00:00:59");
    assert_eq!(running_time(3600), "01:00:00");
    assert_eq!(running_time(3723), "01:02:03");
    assert_eq!(running_time(360000 + 61), "100:01:01");
}

#[test]
fn non_ascii_digits_make_no_version() {
    assert_eq!(check_version("version = \"٠.٣\"", "0.4"), None);
}
