//! Credentials: one `user:token` pair per account, parsed from a
//! configuration file's lines or from a single `;`-separated value.

use vstd::prelude::*;
use crate::text::{find_char, is_ws_char, trim_of, trim_str};

verus! {

/// The credential of one account: a user name and its secret token.
#[derive(Debug)]
pub struct AccessToken {
    pub user: String,
    pub token: String,
}

/// Validates the credential list before the pipeline starts: an empty list
/// is fatal to the whole run, since there are no accounts to query. Entries
/// that could not be parsed never reach the list, so emptiness is the one
/// malformation left to detect.
pub fn check_credentials(tokens: &Vec<AccessToken>) -> (ok: bool)
    ensures
        ok == (tokens@.len() > 0),
{
    tokens.len() > 0
}

/// The index of the first occurrence of `c` in `s`, or `-1` if there is none.
pub open spec fn first_index_of(s: Seq<char>, c: char) -> int
    decreases s.len(),
{
    if s.len() == 0 {
        -1
    } else if s[0] == c {
        0
    } else {
        let r = first_index_of(s.drop_first(), c);
        if r < 0 {
            -1
        } else {
            1 + r
        }
    }
}

/// `s` split at the first occurrence of `c`, which is not part of either
/// half; `None` when `c` does not occur.
pub open spec fn split_once_of(s: Seq<char>, c: char) -> Option<(Seq<char>, Seq<char>)> {
    let i = first_index_of(s, c);
    if i < 0 {
        None
    } else {
        Some((s.take(i), s.skip(i + 1)))
    }
}

pub proof fn lemma_first_index_bounds(s: Seq<char>, c: char)
    ensures
        first_index_of(s, c) == -1 || (0 <= first_index_of(s, c) < s.len()
            && s[first_index_of(s, c)] == c),
    decreases s.len(),
{
    if s.len() > 0 && s[0] != c {
        lemma_first_index_bounds(s.drop_first(), c);
    }
}

proof fn lemma_first_index_found(s: Seq<char>, c: char, i: int)
    requires
        0 <= i < s.len(),
        s[i] == c,
        forall|k: int| 0 <= k < i ==> s[k] != c,
    ensures
        first_index_of(s, c) == i,
    decreases i,
{
    if i > 0 {
        assert(s[0] != c);
        assert(forall|k: int| 0 <= k < i - 1 ==> s.drop_first()[k] == s[k + 1]);
        lemma_first_index_found(s.drop_first(), c, i - 1);
    }
}

proof fn lemma_first_index_absent(s: Seq<char>, c: char)
    requires
        forall|k: int| 0 <= k < s.len() ==> s[k] != c,
    ensures
        first_index_of(s, c) == -1,
    decreases s.len(),
{
    if s.len() > 0 {
        lemma_first_index_absent(s.drop_first(), c);
    }
}

/// Splits `item` at its first `':'` into a user name and a token; `None`
/// when `item` holds no `':'`.
pub fn split_parts(item: &str) -> (r: Option<AccessToken>)
    ensures
        match r {
            Some(tok) => split_once_of(item@, ':') == Some((tok.user@, tok.token@)),
            None => split_once_of(item@, ':') is None,
        },
{
    match find_char(item, ':') {
        Some(i) => {
            proof {
                lemma_first_index_found(item@, ':', i as int);
            }
            let n = item.unicode_len();
            let user = item.substring_char(0, i).to_owned();
            let token = item.substring_char(i + 1, n).to_owned();
            Some(AccessToken { user, token })
        },
        None => {
            proof {
                lemma_first_index_absent(item@, ':');
            }
            None
        },
    }
}

/// The credential held in one configuration line: the line is trimmed,
/// lines starting with `'#'` and lines without a `':'` carry none.
pub open spec fn parse_line_of(line: Seq<char>) -> Option<(Seq<char>, Seq<char>)> {
    let t = trim_of(line);
    if t.len() > 0 && t[0] == '#' {
        None
    } else {
        split_once_of(t, ':')
    }
}

/// Extracts an `AccessToken` from one line of the configuration file.
///
/// Lines without `":"` or with the `"#"` prefix carry no token.
pub fn parse_line(line: &str) -> (r: Option<AccessToken>)
    ensures
        match r {
            Some(tok) => parse_line_of(line@) == Some((tok.user@, tok.token@)),
            None => parse_line_of(line@) is None,
        },
{
    let t = trim_str(line);
    if !t.is_empty() && t.get_char(0) == '#' {
        None
    } else {
        split_parts(t)
    }
}

/// The credential pairs held in a `;`-separated list of `user:token`
/// entries; entries without a `':'` contribute nothing.
pub open spec fn tokens_of(s: Seq<char>) -> Seq<(Seq<char>, Seq<char>)>
    decreases s.len(),
    via tokens_of_decreases
{
    let i = first_index_of(s, ';');
    if i < 0 {
        match split_once_of(s, ':') {
            Some(p) => seq![p],
            None => Seq::empty(),
        }
    } else {
        let head = match split_once_of(s.take(i), ':') {
            Some(p) => seq![p],
            None => Seq::empty(),
        };
        head + tokens_of(s.skip(i + 1))
    }
}

#[via_fn]
proof fn tokens_of_decreases(s: Seq<char>) {
    lemma_first_index_bounds(s, ';');
}

/// The credential pairs that a sequence of tokens holds.
pub open spec fn pairs_of(v: Seq<AccessToken>) -> Seq<(Seq<char>, Seq<char>)> {
    v.map_values(|t: AccessToken| (t.user@, t.token@))
}

/// Parses a `;`-separated list of `user:token` entries, dropping entries
/// without a `':'`.
pub fn parse_token_list(value: &str) -> (r: Vec<AccessToken>)
    ensures
        pairs_of(r@) == tokens_of(value@),
{
    let mut r: Vec<AccessToken> = Vec::new();
    let mut rest: &str = value;
    proof {
        assert(pairs_of(r@) =~= Seq::<(Seq<char>, Seq<char>)>::empty());
    }
    loop
        invariant_except_break
            tokens_of(value@) == pairs_of(r@) + tokens_of(rest@),
        ensures
            pairs_of(r@) == tokens_of(value@),
        decreases rest@.len(),
    {
        match find_char(rest, ';') {
            Some(i) => {
                proof {
                    lemma_first_index_found(rest@, ';', i as int);
                }
                let n = rest.unicode_len();
                let piece = rest.substring_char(0, i);
                let ghost old_r = r@;
                let ghost old_rest = rest@;
                match split_parts(piece) {
                    Some(tok) => {
                        r.push(tok);
                        proof {
                            assert(pairs_of(r@) =~= pairs_of(old_r).push(
                                (r@.last().user@, r@.last().token@)));
                        }
                    },
                    None => {},
                }
                rest = rest.substring_char(i + 1, n);
                proof {
                    assert(tokens_of(old_rest) == (match split_once_of(old_rest.take(i as int),
                        ':') {
                        Some(p) => seq![p],
                        None => Seq::empty(),
                    }) + tokens_of(rest@));
                    assert(tokens_of(value@) =~= pairs_of(r@) + tokens_of(rest@));
                }
            },
            None => {
                proof {
                    lemma_first_index_absent(rest@, ';');
                }
                let ghost old_r = r@;
                match split_parts(rest) {
                    Some(tok) => {
                        r.push(tok);
                        proof {
                            assert(pairs_of(r@) =~= pairs_of(old_r).push(
                                (r@.last().user@, r@.last().token@)));
                            assert(tokens_of(rest@) =~= seq![(r@.last().user@, r@.last().token@)]);
                            assert(pairs_of(r@) =~= tokens_of(value@));
                        }
                    },
                    None => {
                        proof {
                            assert(tokens_of(rest@) =~= Seq::<(Seq<char>, Seq<char>)>::empty());
                            assert(pairs_of(r@) =~= tokens_of(value@));
                        }
                    },
                }
                break;
            },
        }
    }
    r
}

} // verus!
