use chrome_tool::text::{decimal_string, eq_ignore_ascii_case, parse_u32, str_eq};

#[test]
fn decimal_renders_numbers() {
    assert_eq!(decimal_string(0), "0");
    assert_eq!(decimal_string(7), "7");
    assert_eq!(decimal_string(112), "112");
    assert_eq!(decimal_string(4294967295), "4294967295");
}

#[test]
fn parse_reads_unsigned_integers() {
    assert_eq!(parse_u32("113"), Some(113));
    assert_eq!(parse_u32("+80"), Some(80));
    assert_eq!(parse_u32("007"), Some(7));
    assert_eq!(parse_u32("4294967295"), Some(4294967295));
    assert_eq!(parse_u32("4294967296"), None);
    assert_eq!(parse_u32("abc"), None);
    assert_eq!(parse_u32(""), None);
    assert_eq!(parse_u32("+"), None);
    assert_eq!(parse_u32("-1"), None);
    assert_eq!(parse_u32("12a"), None);
    assert_eq!(parse_u32(" 12"), None);
}

#[test]
fn case_insensitive_compare() {
    assert!(eq_ignore_ascii_case("Chrome.EXE", "chrome.exe"));
    assert!(eq_ignore_ascii_case("chrome.exe", "CHROME.exe"));
    assert!(!eq_ignore_ascii_case("chrome.ex", "chrome.exe"));
    assert!(!eq_ignore_ascii_case("chrome_exe", "chrome.exe"));
    assert!(str_eq("win64", "win64"));
    assert!(!str_eq("Win64", "win64"));
}
