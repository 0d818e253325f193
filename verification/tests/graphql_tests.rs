use release_feed::graphql::{build_query, QUERY_HEAD, QUERY_TAIL};

#[test]
fn first_page_query_uses_null_cursor() {
    let q = build_query(None);
    assert_eq!(q.query, format!("{}null{}", QUERY_HEAD, QUERY_TAIL));
    assert!(q.query.contains("starredRepositories(first: 100, after: null)"));
}

#[test]
fn later_page_query_quotes_the_cursor() {
    let q = build_query(Some("X"));
    assert_eq!(q.query, format!("{}\"X\"{}", QUERY_HEAD, QUERY_TAIL));
    assert!(q.query.contains("after: \"X\")"));
}

#[test]
fn cursor_with_quotes_is_escaped() {
    let q = build_query(Some("a\"b\\c"));
    assert_eq!(q.query, format!("{}\"a\\\"b\\\\c\"{}", QUERY_HEAD, QUERY_TAIL));
}

#[test]
fn cursor_control_characters_are_escaped() {
    let q = build_query(Some("a\nb\tc"));
    assert_eq!(q.query, format!("{}\"a\\nb\\tc\"{}", QUERY_HEAD, QUERY_TAIL));
    let q = build_query(Some("\u{1}"));
    assert_eq!(q.query, format!("{}\"\\u0001\"{}", QUERY_HEAD, QUERY_TAIL));
    let q = build_query(Some("\u{1f}"));
    assert_eq!(q.query, format!("{}\"\\u001f\"{}", QUERY_HEAD, QUERY_TAIL));
}
