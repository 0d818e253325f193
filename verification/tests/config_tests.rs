use release_feed::config::{check_credentials, parse_line, parse_token_list, split_parts};

#[test]
fn empty_credential_list_is_rejected() {
    assert!(!check_credentials(&Vec::new()));
    let toks = parse_token_list("a:1");
    assert!(check_credentials(&toks));
    let none = parse_token_list("no separator");
    assert!(!check_credentials(&none));
}

#[test]
fn split_parts_basic() {
    let tok = split_parts("alice:s3cr3t").expect("token");
    assert_eq!(tok.user, "alice");
    assert_eq!(tok.token, "s3cr3t");
}

#[test]
fn split_parts_keeps_later_colons() {
    let tok = split_parts("a:b:c").expect("token");
    assert_eq!(tok.user, "a");
    assert_eq!(tok.token, "b:c");
}

#[test]
fn split_parts_empty_user() {
    let tok = split_parts(":t").expect("token");
    assert_eq!(tok.user, "");
    assert_eq!(tok.token, "t");
}

#[test]
fn split_parts_without_colon() {
    assert!(split_parts("no separator").is_none());
    assert!(split_parts("").is_none());
}

#[test]
fn parse_line_trims() {
    let tok = parse_line("  bob:tok  ").expect("token");
    assert_eq!(tok.user, "bob");
    assert_eq!(tok.token, "tok");
}

#[test]
fn parse_line_skips_comments_and_plain_lines() {
    assert!(parse_line("# a comment").is_none());
    assert!(parse_line("   # indented comment").is_none());
    assert!(parse_line("no colon here").is_none());
    assert!(parse_line("").is_none());
}

#[test]
fn token_list_splits_on_semicolons() {
    let toks = parse_token_list("a:1;b:2");
    assert_eq!(toks.len(), 2);
    assert_eq!(toks[0].user, "a");
    assert_eq!(toks[0].token, "1");
    assert_eq!(toks[1].user, "b");
    assert_eq!(toks[1].token, "2");
}

#[test]
fn token_list_drops_entries_without_colon() {
    let toks = parse_token_list("a:1;;plain;c:3");
    assert_eq!(toks.len(), 2);
    assert_eq!(toks[0].user, "a");
    assert_eq!(toks[1].user, "c");
    assert_eq!(toks[1].token, "3");
}

#[test]
fn token_list_empty_value() {
    assert!(parse_token_list("").is_empty());
}
