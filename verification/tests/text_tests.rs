use mtga_stats::mtga_process::is_mtga_process_name;
use mtga_stats::text::{contains_exec, parse_u64_exec, str_eq, trim_string};

#[test]
fn trim_removes_surrounding_white_space() {
    assert_eq!(trim_string("  abc \t\n"), "abc");
    assert_eq!(trim_string(" \t "), "");
    assert_eq!(trim_string("a b"), "a b");
}

#[test]
fn parse_u64_reads_decimal_numbers() {
    assert_eq!(parse_u64_exec("123"), Some(123));
    assert_eq!(parse_u64_exec("+7"), Some(7));
    assert_eq!(parse_u64_exec("0"), Some(0));
    assert_eq!(parse_u64_exec("18446744073709551615"), Some(u64::MAX));
}

#[test]
fn parse_u64_refuses_what_str_parse_refuses() {
    assert_eq!(parse_u64_exec(""), None);
    assert_eq!(parse_u64_exec("+"), None);
    assert_eq!(parse_u64_exec("-1"), None);
    assert_eq!(parse_u64_exec("1a"), None);
    assert_eq!(parse_u64_exec(" 1"), None);
    assert_eq!(parse_u64_exec("18446744073709551616"), None);
}

#[test]
fn contains_and_equality() {
    assert!(contains_exec("{\"Courses\": []}", "\"Courses\""));
    assert!(!contains_exec("Courses", "\"Courses\""));
    assert!(contains_exec("abc", ""));
    assert!(str_eq("abc", "abc"));
    assert!(!str_eq("abc", "abd"));
}

#[test]
fn process_name_ignores_ascii_case() {
    assert!(is_mtga_process_name("MTGA.exe", "MTGA.exe"));
    assert!(is_mtga_process_name("mtga.EXE", "MTGA.exe"));
    assert!(!is_mtga_process_name("MTGA.ex", "MTGA.exe"));
    assert!(!is_mtga_process_name("MTGB.exe", "MTGA.exe"));
}
