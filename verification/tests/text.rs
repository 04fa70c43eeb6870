use murmure::text::{
    after_first, blank, concat3, contains, decimal_of, ends_with, find, join, keep_last_lines, lines,
    parse_number, remove_all, same, starts_with, trim, trim_start,
};

#[test]
fn trimming_removes_unicode_white_space() {
    assert_eq!(trim(" \u{a0}bonjour\u{2003}\n"), "bonjour");
    assert_eq!(trim_start("\t a b "), "a b ");
    assert_eq!(trim(""), "");
    assert!(blank(" \r\n\u{3000}"));
    assert!(!blank(" . "));
}

#[test]
fn trimming_twice_changes_nothing() {
    let once = trim("  a b\u{85} ");
    assert_eq!(trim(&once), once);
}

#[test]
fn searching_finds_the_first_place() {
    assert_eq!(find("aéaéa", "éa"), Some(1));
    assert_eq!(find("abc", "d"), None);
    assert_eq!(find("abc", ""), Some(0));
    assert_eq!(after_first("a<t>b<t>c", "<t>"), Some("b<t>c".to_string()));
    assert_eq!(after_first("abc", "x"), None);
    assert!(contains("encoder.int8.onnx", "int8"));
    assert!(starts_with("language French", "language"));
    assert!(!starts_with("lang", "language"));
    assert!(ends_with("x.onnx", ".onnx"));
    assert!(!ends_with("onnx", ".onnx"));
    assert!(same("é", "é") && !same("e", "é"));
}

#[test]
fn removing_leaves_the_rest() {
    assert_eq!(remove_all("a--b----c", "--"), "abc");
    assert_eq!(remove_all("aaa", "aa"), "a");
    assert_eq!(remove_all("abc", "x"), "abc");
}

#[test]
fn lines_end_at_line_breaks() {
    assert_eq!(lines("a\r\nb\n\nc"), vec!["a", "b", "", "c"]);
    assert_eq!(lines("a\n"), vec!["a"]);
    assert_eq!(lines("a\r"), vec!["a\r"]);
    assert!(lines("").is_empty());
    assert_eq!(keep_last_lines("1\n2\n3\n4\n", 2), "3\n4");
    assert_eq!(keep_last_lines("1\n2", 6), "1\n2");
}

#[test]
fn joining_puts_separators_between() {
    let parts = vec!["a".to_string(), "".to_string(), "b".to_string()];
    assert_eq!(join(&parts, ", "), "a, , b");
    assert_eq!(join(&Vec::new(), ", "), "");
    assert_eq!(concat3("a", "b", "c"), "abc");
}

#[test]
fn numbers_are_written_and_read() {
    assert_eq!(decimal_of(0), "0");
    assert_eq!(decimal_of(18446744073709551615), "18446744073709551615");
    assert_eq!(parse_number("4294967295"), Some(4294967295));
    assert_eq!(parse_number("4294967296"), None);
    assert_eq!(parse_number("+12"), Some(12));
    assert_eq!(parse_number("-1"), None);
    assert_eq!(parse_number("+"), None);
    assert_eq!(parse_number(""), None);
    assert_eq!(parse_number("0012"), Some(12));
}
