use ale_bot::list_ops::remove_element;
use ale_bot::text::{decimal_string, parse_id, remove_all, sanitize_markdown};

#[test]
fn ids_parse_like_nonzero_u64() {
    assert_eq!(parse_id("123"), Some(123));
    assert_eq!(parse_id("+5"), Some(5));
    assert_eq!(parse_id("007"), Some(7));
    assert_eq!(parse_id("18446744073709551615"), Some(u64::MAX));
    assert_eq!(parse_id("18446744073709551616"), None);
    assert_eq!(parse_id("99999999999999999999"), None);
    assert_eq!(parse_id("0"), None);
    assert_eq!(parse_id(""), None);
    assert_eq!(parse_id("+"), None);
    assert_eq!(parse_id("-1"), None);
    assert_eq!(parse_id("12a"), None);
    assert_eq!(parse_id(" 12"), None);
}

#[test]
fn decimals() {
    assert_eq!(decimal_string(0), "0");
    assert_eq!(decimal_string(7), "7");
    assert_eq!(decimal_string(1234), "1234");
    assert_eq!(decimal_string(u64::MAX), "18446744073709551615");
}

#[test]
fn markdown_is_sanitized() {
    assert_eq!(sanitize_markdown("**bold** __u__ ```code```\nx".to_string()), "bold u codex");
    assert_eq!(sanitize_markdown("plain".to_string()), "plain");
    assert_eq!(sanitize_markdown("***".to_string()), "*");
    assert_eq!(sanitize_markdown(String::new()), "");
    assert_eq!(remove_all("aaa", "aa"), "a");
    assert_eq!(remove_all("héllo**wörld", "**"), "héllowörld");
}

#[test]
fn remove_first_matching_element() {
    let mut v = vec!["a".to_string(), "b".to_string(), "a".to_string()];
    assert!(remove_element(&mut v, &"a".to_string()));
    assert_eq!(v, vec!["b".to_string(), "a".to_string()]);
    assert!(!remove_element(&mut v, &"z".to_string()));
    assert_eq!(v.len(), 2);
}
