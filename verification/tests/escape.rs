use michi::escape::{escape_value, escape_value_quoted, sanitize_header_token};

#[test]
fn plain_token_is_borrowed() {
    let result = sanitize_header_token("file_path");
    assert!(matches!(result, std::borrow::Cow::Borrowed(_)));
    assert_eq!(result, "file_path");
}

#[test]
fn newline_in_type_name_is_replaced() {
    assert_eq!(sanitize_header_token("foo\nbar"), "foo_bar");
}

#[test]
fn carriage_return_is_replaced() {
    assert_eq!(sanitize_header_token("foo\rbar"), "foo_bar");
}

#[test]
fn structural_chars_are_replaced() {
    assert_eq!(sanitize_header_token("a[b]c"), "a_b_c");
    assert_eq!(sanitize_header_token("a{b}c"), "a_b_c");
    assert_eq!(sanitize_header_token("a,b"), "a_b");
}

#[test]
fn multiple_structural_chars() {
    assert_eq!(sanitize_header_token("foo{bar},baz\n"), "foo_bar__baz_");
}

#[test]
fn plain_value_is_not_escaped() {
    assert_eq!(escape_value("hello"), "hello");
}

#[test]
fn value_with_comma_is_quoted() {
    assert_eq!(escape_value("a,b"), r#""a,b""#);
}

#[test]
fn value_with_quote_escapes_it() {
    assert_eq!(escape_value(r#"say "hi""#), r#""say \"hi\"""#);
}

#[test]
fn empty_value_is_unchanged() {
    assert_eq!(escape_value(""), "");
}

#[test]
fn quoted_value_always_wraps_and_escapes() {
    assert_eq!(escape_value_quoted("plain"), "\"plain\"");
    assert_eq!(escape_value_quoted("say \"hi\"\nnow"), "\"say \\\"hi\\\"now\"");
    assert_eq!(escape_value_quoted(""), "\"\"");
}

#[test]
fn value_with_line_break_only_is_stripped_not_quoted() {
    assert_eq!(escape_value("a\nb\rc"), "abc");
    assert!(matches!(escape_value("a\nb"), std::borrow::Cow::Owned(_)));
    assert!(matches!(escape_value("plain"), std::borrow::Cow::Borrowed(_)));
}
