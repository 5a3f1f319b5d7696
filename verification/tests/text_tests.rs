use crashtest_harness::text::{path_join, str_contains, str_ends_with, str_eq, tokens_of};
use crashtest_harness::urls::{is_file_url, url_scheme};

#[test]
fn tokenization_skips_repeated_whitespace() {
    let toks = tokens_of("  one\ttwo   three ");
    assert_eq!(toks, vec!["one".to_string(), "two".to_string(), "three".to_string()]);
    assert!(tokens_of("   \t").is_empty());
    assert!(tokens_of("").is_empty());
}

#[test]
fn string_predicates() {
    assert!(str_eq("abc", "abc"));
    assert!(!str_eq("abc", "abd"));
    assert!(!str_eq("abc", "ab"));
    assert!(str_contains("a-crash-test", "crash"));
    assert!(!str_contains("a-flash-test", "crash"));
    assert!(str_contains("anything", ""));
    assert!(str_ends_with("foo-expected", "-expected"));
    assert!(!str_ends_with("foo-expectedly", "-expected"));
    assert!(!str_ends_with("pected", "-expected"));
}

#[test]
fn path_join_inserts_separator() {
    assert_eq!(path_join("/a/b", "c"), "/a/b/c");
}

#[test]
fn url_schemes() {
    assert_eq!(url_scheme("file:///x.html"), "file");
    assert_eq!(url_scheme("https://example.com"), "https");
    assert_eq!(url_scheme("no-colon-here"), "no-colon-here");
    assert!(is_file_url("file:///x.html"));
    assert!(!is_file_url("https://example.com/x.html"));
    assert!(!is_file_url("filet://x"));
}
