use slam::utils::indent;

#[test]
fn test_indent_single_line() {
    let input = "hello world";
    let result = indent(input, 4);
    assert_eq!(result, "    hello world");
}

#[test]
fn test_indent_multiple_lines() {
    let input = "line1\nline2\nline3";
    let result = indent(input, 2);
    assert_eq!(result, "  line1\n  line2\n  line3");
}

#[test]
fn test_indent_empty_string() {
    let input = "";
    let result = indent(input, 3);
    assert_eq!(result, "");
}

#[test]
fn test_indent_zero_indent() {
    let input = "no indent";
    let result = indent(input, 0);
    assert_eq!(result, "no indent");
}

#[test]
fn test_indent_with_empty_lines() {
    let input = "line1\n\nline3";
    let result = indent(input, 2);
    assert_eq!(result, "  line1\n  \n  line3");
}

#[test]
fn indent_drops_carriage_returns_and_the_last_line_feed() {
    assert_eq!(indent("a\r\nb\n", 1), " a\n b");
    assert_eq!(indent("a\rb", 1), " a\rb");
}

#[test]
fn margins_add_up() {
    for s in ["one", "one\n\ntwo", "one\ntwo\n", ""] {
        assert_eq!(indent(&indent(s, 1), 3), indent(s, 4));
    }
    assert_eq!(indent(&indent("a\n\n", 2), 1), "   a\n   ");
    assert_eq!(indent(&indent("a\n\n", 0), 1), " a");
    assert_eq!(indent("a\n\n", 1), " a\n ");
}
