use simplescene::num::is_num_token;
use simplescene::num::parse_u16;
use simplescene::text::split_lines;
use simplescene::text::split_on;
use simplescene::text::str_eq;

#[test]
fn num_tokens_accepted() {
    assert!(is_num_token("0"));
    assert!(is_num_token("42"));
    assert!(is_num_token("-1.5"));
    assert!(is_num_token("+2"));
    assert!(is_num_token("3.250"));
    assert!(is_num_token("007"));
}

#[test]
fn num_tokens_rejected() {
    assert!(!is_num_token(""));
    assert!(!is_num_token("-"));
    assert!(!is_num_token("1."));
    assert!(!is_num_token(".5"));
    assert!(!is_num_token("1.2.3"));
    assert!(!is_num_token("x"));
    assert!(!is_num_token("1x"));
    assert!(!is_num_token("1 2"));
}

#[test]
fn u16_parsing() {
    assert_eq!(parse_u16("0"), Some(0));
    assert_eq!(parse_u16("7"), Some(7));
    assert_eq!(parse_u16("007"), Some(7));
    assert_eq!(parse_u16("65535"), Some(65535));
    assert_eq!(parse_u16("65536"), None);
    assert_eq!(parse_u16("99999999999999999999"), None);
    assert_eq!(parse_u16(""), None);
    assert_eq!(parse_u16("-1"), None);
    assert_eq!(parse_u16("1.0"), None);
}

#[test]
fn field_splitting() {
    assert_eq!(split_on("a b c", ' '), vec!["a", "b", "c"]);
    assert_eq!(split_on("a  b", ' '), vec!["a", "", "b"]);
    assert_eq!(split_on("", ' '), vec![""]);
    assert_eq!(split_on(" lead", ' '), vec!["", "lead"]);
    assert_eq!(split_on("trail ", ' '), vec!["trail", ""]);
}

#[test]
fn line_splitting() {
    assert_eq!(split_lines("a\nb\n"), vec!["a", "b"]);
    assert_eq!(split_lines("a\nb"), vec!["a", "b"]);
    assert_eq!(split_lines("a\n\nb\n"), vec!["a", "", "b"]);
    assert!(split_lines("").is_empty());
    assert_eq!(split_lines("\n"), vec![""]);
}

#[test]
fn string_equality() {
    assert!(str_eq("end vertex", "end vertex"));
    assert!(!str_eq("end vertex", "end vertex "));
    assert!(!str_eq("abc", "abd"));
    assert!(str_eq("", ""));
}
