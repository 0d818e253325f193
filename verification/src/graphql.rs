//! Builds the query sent for one page of the starred-repository listing.

use vstd::prelude::*;

verus! {

/// The part of the query text that precedes the paging cursor.
pub const QUERY_HEAD: &'static str = "
    query {
        viewer {
            starredRepositories(first: 100, after: ";

/// The part of the query text that follows the paging cursor.
pub const QUERY_TAIL: &'static str = ") {
                pageInfo {
                    hasNextPage
                    endCursor
                }

                nodes {
                    databaseId,
                    nameWithOwner,
                    url,
                    description,
                    forkCount,
                    stargazerCount,

                    latestRelease {
                        name,
                        tagName,
                        url,
                        createdAt,
                        publishedAt,
                        isPrerelease,
                        descriptionHTML
                    }

                    languages(first: 10) {
                        nodes {
                            name
                        }
                    }
                }
            }
        }
    }
";

/// The lowercase hexadecimal digit for `d`, for `0 <= d < 16`.
pub open spec fn json_hex_digit(d: int) -> char {
    if d < 10 {
        ((d + 48) as u8) as char
    } else {
        ((d + 87) as u8) as char
    }
}

/// How serde_json escapes one character inside a JSON string literal: the
/// quote and the backslash get a backslash; backspace, tab, line feed, form
/// feed and carriage return get their short forms; every other control
/// character below 0x20 becomes `\u00XY` with lowercase hex; all other
/// characters stand as themselves.
pub open spec fn json_escape_char(c: char) -> Seq<char> {
    if c == '"' {
        seq!['\\', '"']
    } else if c == '\\' {
        seq!['\\', '\\']
    } else if c == '\u{8}' {
        seq!['\\', 'b']
    } else if c == '\t' {
        seq!['\\', 't']
    } else if c == '\n' {
        seq!['\\', 'n']
    } else if c == '\u{c}' {
        seq!['\\', 'f']
    } else if c == '\r' {
        seq!['\\', 'r']
    } else if (c as int) < 32 {
        seq!['\\', 'u', '0', '0', json_hex_digit((c as int) / 16), json_hex_digit((c as int) % 16)]
    } else {
        seq![c]
    }
}

/// The escaping of a whole string, character by character.
pub open spec fn json_escaped_of(s: Seq<char>) -> Seq<char>
    decreases s.len(),
{
    if s.len() == 0 {
        Seq::empty()
    } else {
        json_escaped_of(s.drop_last()) + json_escape_char(s.last())
    }
}

/// The JSON string literal that encodes `s`: quote-delimited, its characters
/// escaped as `json_escape_char` describes. Decoding the literal yields
/// exactly `s`, and no character of `s` can end the literal or alter what
/// surrounds it.
pub open spec fn json_quoted_of(s: Seq<char>) -> Seq<char> {
    seq!['"'] + json_escaped_of(s) + seq!['"']
}

/// Relies on serde_json::to_string: a string is written as one quote-
/// delimited literal whose characters are escaped by the serializer's fixed
/// table — exactly the quote, the backslash and the ASCII control
/// characters, the latter with lowercase hex — as `json_quoted_of` states.
/// Serializing a string slice cannot fail: its `Serialize` implementation
/// never errors and no map keys are involved.
#[verifier::external_body]
fn json_quote(s: &str) -> (r: String)
    ensures
        r@ == json_quoted_of(s@),
{
    serde_json::to_string(s).unwrap()
}

/// One page request: the query text to send.
pub struct Query {
    pub query: String,
}

/// Builds the query for one page: the fixed query text with the paging
/// cursor spliced in, JSON-quoted, or `null` for the first page.
pub fn build_query(cursor: Option<&str>) -> (q: Query)
    ensures
        (q.query@ == match cursor {
            Some(c) => QUERY_HEAD@ + json_quoted_of(c@) + QUERY_TAIL@,
            None => QUERY_HEAD@ + "null"@ + QUERY_TAIL@,
        }),
{
    let mid: String = match cursor {
        Some(c) => json_quote(c),
        None => "null".to_owned(),
    };
    let text = QUERY_HEAD.to_owned().concat(mid.as_str()).concat(QUERY_TAIL);
    Query { query: text }
}

} // verus!
