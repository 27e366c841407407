use slam::numbers::{decimal_of, padded, parse_unsigned, signed_of};
use slam::paths::{joined_path, parent_of, relative_to};
use slam::text;

#[test]
fn paths_are_joined() {
    assert_eq!(joined_path("/a", "b"), "/a/b");
    assert_eq!(joined_path("/a/", "b"), "/a/b");
    assert_eq!(joined_path("", "b"), "b");
    assert_eq!(joined_path("/a", "/b"), "/b");
    assert_eq!(joined_path("/a", ""), "/a/");
}

#[test]
fn paths_are_told_from_a_base() {
    let rest = |s: &str| Some(s.to_string());
    assert_eq!(relative_to("/a/b/c", "/a"), rest("b/c"));
    assert_eq!(relative_to("/a/b/c", "/a/"), rest("b/c"));
    assert_eq!(relative_to("/a/b", "/a/b"), rest(""));
    assert_eq!(relative_to("/a/bc", "/a/b"), None);
    assert_eq!(relative_to("a/b", "/a"), None);
    assert_eq!(relative_to(&joined_path("/w", "org/r"), "/w"), rest("org/r"));
}

#[test]
fn paths_have_parents() {
    assert_eq!(parent_of("/a/b"), Some("/a".to_string()));
    assert_eq!(parent_of("/a"), Some("/".to_string()));
    assert_eq!(parent_of("a"), Some("".to_string()));
    assert_eq!(parent_of("/"), None);
    assert_eq!(parent_of(""), None);
}

#[test]
fn numbers_are_written_and_read() {
    assert_eq!(decimal_of(0), "0");
    assert_eq!(decimal_of(18446744073709551615), "18446744073709551615");
    assert_eq!(parse_unsigned(&decimal_of(4711)), Some(4711));
    assert_eq!(parse_unsigned(""), None);
    assert_eq!(parse_unsigned("-1"), None);
    assert_eq!(signed_of(-7), "-7");
    assert_eq!(padded("x", 3), "  x");
    assert_eq!(padded("long", 3), "long");
}

#[test]
fn lines_end_at_line_feeds() {
    assert_eq!(text::lines_of("a\r\nb\n\nc\r"), vec!["a", "b", "", "c\r"]);
    assert!(text::lines_of("").is_empty());
}

#[test]
fn texts_are_trimmed_and_replaced() {
    assert_eq!(text::trimmed("\u{2003} a b \n"), "a b");
    assert_eq!(text::trim_end_matches("r.git.git", ".git"), "r");
    assert_eq!(text::trim_start_matches("* * x", "* "), "x");
    assert_eq!(text::replaced("aXbX", "X", "--"), "a--b--");
    assert_eq!(text::replaced("abc", "X", "--"), "abc");
    assert_eq!(text::debug_list(&vec!["a\u{0}".to_string(), "é'\"".to_string()]), "[\"a\\0\", \"é'\\\"\"]");
}
