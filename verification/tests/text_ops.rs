use staffmon::text::{
    contains_str, find_sub, join_strings, parse_u16, parse_u32, parse_u64, split_lines,
    split_on_char, split_tokens, starts_with_str, str_eq, trim_str,
};

#[test]
fn lines_split_like_the_standard_iterator() {
    assert_eq!(split_lines("a\nb\nc"), vec!["a", "b", "c"]);
    assert_eq!(split_lines("a\nb\n"), vec!["a", "b"]);
    assert_eq!(split_lines(""), Vec::<String>::new());
    assert_eq!(split_lines("\n"), vec![""]);
    assert_eq!(split_lines("a\n\nb"), vec!["a", "", "b"]);
}

#[test]
fn carriage_return_newline_counts_as_one_line_ending() {
    assert_eq!(split_lines("a\r\nb\r\n"), vec!["a", "b"]);
    assert_eq!(split_lines("a\r\nb"), vec!["a", "b"]);
    assert_eq!(split_lines("a\r"), vec!["a\r"]);
    assert_eq!(split_lines("\r\n"), vec![""]);
}

#[test]
fn tokens_are_maximal_nonblank_runs() {
    assert_eq!(split_tokens("  a  bb\tccc \n"), vec!["a", "bb", "ccc"]);
    assert_eq!(split_tokens(""), Vec::<String>::new());
    assert_eq!(split_tokens("   "), Vec::<String>::new());
    assert_eq!(split_tokens("one"), vec!["one"]);
}

#[test]
fn char_split_keeps_empty_segments() {
    assert_eq!(split_on_char("a:b::c", ':'), vec!["a", "b", "", "c"]);
    assert_eq!(split_on_char("", ','), vec![""]);
    assert_eq!(split_on_char("x,", ','), vec!["x", ""]);
}

#[test]
fn substring_search_and_prefixes() {
    assert!(contains_str("Status: active", "Status: active"));
    assert!(contains_str("a Status: active b", "Status: active"));
    assert!(!contains_str("Status: inactive", "Status: active"));
    assert!(contains_str("anything", ""));
    assert!(starts_with_str("Loaded plugins: fast", "Loaded plugins:"));
    assert!(!starts_with_str("x Loaded plugins:", "Loaded plugins:"));
    assert_eq!(find_sub("load average: 0.1", "load average:"), Some(0));
    assert_eq!(find_sub("up 3 days, load average: 0.1", "load average:"), Some(11));
    assert_eq!(find_sub("nothing here", "load average:"), None);
}

#[test]
fn trimming_and_equality() {
    assert_eq!(trim_str("  active\n"), "active");
    assert_eq!(trim_str(""), "");
    assert_eq!(trim_str(" \t\n"), "");
    assert_eq!(trim_str("inner text"), "inner text");
    assert!(str_eq("abc", "abc"));
    assert!(!str_eq("abc", "abd"));
    assert!(!str_eq("abc", "ab"));
}

#[test]
fn joining_with_separators() {
    let parts: Vec<String> = vec!["a".into(), "b".into(), "c".into()];
    assert_eq!(join_strings(&parts, " "), "a b c");
    let one: Vec<String> = vec!["solo".into()];
    assert_eq!(join_strings(&one, " "), "solo");
    let none: Vec<String> = Vec::new();
    assert_eq!(join_strings(&none, " "), "");
}

#[test]
fn decimal_parsing_accepts_plain_digit_runs_only() {
    assert_eq!(parse_u64("0"), Some(0));
    assert_eq!(parse_u64("18446744073709551615"), Some(u64::MAX));
    assert_eq!(parse_u64("18446744073709551616"), None);
    assert_eq!(parse_u64(""), None);
    assert_eq!(parse_u64("12a"), None);
    assert_eq!(parse_u64(" 12"), None);
    assert_eq!(parse_u64("+80"), Some(80));
    assert_eq!(parse_u64("+"), None);
    assert_eq!(parse_u64("++1"), None);
    assert_eq!(parse_u64("-1"), None);
    assert_eq!(parse_u16("443"), Some(443));
    assert_eq!(parse_u16("65536"), None);
    assert_eq!(parse_u32("4294967295"), Some(u32::MAX));
    assert_eq!(parse_u32("4294967296"), None);
}
