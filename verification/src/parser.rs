//! The matching-list input grammar.
//!
//! The filter arrives as one flag value: an array of objects, each
//! object a set of `"key": "value"` pairs with keys drawn from
//! `origin`, `sender`, `destination` and `recipient`, each at most
//! once. Whitespace is free between tokens; string values may hold any
//! character except `"` and `\` (no escape sequences). `sender` and
//! `recipient` values must be account addresses and are stored in their
//! 32-byte right-aligned form. Anything else — trailing text, an
//! unknown or repeated key, a non-string value, a bad address — is a
//! hard error before any chain is queried.

use vstd::prelude::*;

use crate::codec::{recipient_of, valid_account_address, encode_recipient, str_eq};
use crate::errors::CliError;
use crate::matching::{ElementModel, ListElement, MatchingList};

verus! {

pub open spec fn is_ws(c: char) -> bool {
    c == ' ' || c == '\t' || c == '\n' || c == '\r'
}

/// First position at or after `i` holding something other than
/// whitespace.
pub open spec fn sp_skip_ws(s: Seq<char>, i: int) -> int
    decreases s.len() - i,
{
    if i < s.len() && is_ws(s[i]) {
        sp_skip_ws(s, i + 1)
    } else {
        i
    }
}

proof fn lemma_skip_ws_bounds(s: Seq<char>, i: int)
    requires
        0 <= i <= s.len(),
    ensures
        i <= sp_skip_ws(s, i) <= s.len(),
    decreases s.len() - i,
{
    if i < s.len() && is_ws(s[i]) {
        lemma_skip_ws_bounds(s, i + 1);
    }
}

/// Position of the closing quote of a string whose content starts at
/// `i`; `None` on an escape character or an unterminated string.
pub open spec fn sp_string_end(s: Seq<char>, i: int) -> Option<int>
    decreases s.len() - i,
{
    if i >= s.len() {
        None
    } else if s[i] == '"' {
        Some(i)
    } else if s[i] == '\\' {
        None
    } else {
        sp_string_end(s, i + 1)
    }
}

proof fn lemma_string_end_bounds(s: Seq<char>, i: int)
    requires
        0 <= i <= s.len(),
    ensures
        match sp_string_end(s, i) {
            Some(j) => i <= j < s.len(),
            None => true,
        },
    decreases s.len() - i,
{
    if i < s.len() && s[i] != '"' && s[i] != '\\' {
        lemma_string_end_bounds(s, i + 1);
    }
}

/// A quoted string at `i`: its content and the position after the
/// closing quote.
pub open spec fn sp_parse_string(s: Seq<char>, i: int) -> Option<(Seq<char>, int)> {
    if 0 <= i < s.len() && s[i] == '"' {
        match sp_string_end(s, i + 1) {
            Some(j) => Some((s.subrange(i + 1, j), j + 1)),
            None => None,
        }
    } else {
        None
    }
}

proof fn lemma_parse_string_next(s: Seq<char>, i: int)
    requires
        0 <= i <= s.len(),
    ensures
        match sp_parse_string(s, i) {
            Some((v, m)) => i + 2 <= m <= s.len(),
            None => true,
        },
{
    if 0 <= i < s.len() && s[i] == '"' {
        lemma_string_end_bounds(s, i + 1);
    }
}

/// An element with no constraints.
pub open spec fn empty_element() -> ElementModel {
    ElementModel { origin: None, sender: None, destination: None, recipient: None }
}

/// Records one `"key": "value"` pair on an element. A key may be given
/// at most once; address-valued keys must hold a well-formed account
/// address, stored right-aligned.
pub open spec fn sp_apply_field(e: ElementModel, key: Seq<char>, val: Seq<char>) -> Option<
    ElementModel,
> {
    if key == "origin"@ {
        if e.origin is None {
            Some(ElementModel { origin: Some(val), .. e })
        } else {
            None
        }
    } else if key == "destination"@ {
        if e.destination is None {
            Some(ElementModel { destination: Some(val), .. e })
        } else {
            None
        }
    } else if key == "sender"@ {
        if e.sender is None && valid_account_address(val) {
            Some(ElementModel { sender: Some(recipient_of(val)), .. e })
        } else {
            None
        }
    } else if key == "recipient"@ {
        if e.recipient is None && valid_account_address(val) {
            Some(ElementModel { recipient: Some(recipient_of(val)), .. e })
        } else {
            None
        }
    } else {
        None
    }
}

/// The pairs of one object, from the first key to just past the
/// closing `}`.
pub open spec fn sp_parse_pairs(s: Seq<char>, i: int, e: ElementModel) -> Option<
    (ElementModel, int),
>
    decreases s.len() - i,
    via sp_parse_pairs_dec
{
    if !(0 <= i <= s.len()) {
        None
    } else {
        match sp_parse_string(s, i) {
            None => None,
            Some((key, a)) => {
                let b = sp_skip_ws(s, a);
                if b < s.len() && s[b] == ':' {
                    let c = sp_skip_ws(s, b + 1);
                    match sp_parse_string(s, c) {
                        None => None,
                        Some((val, d)) => match sp_apply_field(e, key, val) {
                            None => None,
                            Some(e2) => {
                                let f = sp_skip_ws(s, d);
                                if f < s.len() && s[f] == ',' {
                                    let g = sp_skip_ws(s, f + 1);
                                    sp_parse_pairs(s, g, e2)
                                } else if f < s.len() && s[f] == '}' {
                                    Some((e2, f + 1))
                                } else {
                                    None
                                }
                            },
                        },
                    }
                } else {
                    None
                }
            },
        }
    }
}

#[via_fn]
proof fn sp_parse_pairs_dec(s: Seq<char>, i: int, e: ElementModel) {
    if 0 <= i <= s.len() {
        lemma_parse_string_next(s, i);
        match sp_parse_string(s, i) {
            None => {},
            Some((key, a)) => {
                lemma_skip_ws_bounds(s, a);
                let b = sp_skip_ws(s, a);
                if b < s.len() && s[b] == ':' {
                    lemma_skip_ws_bounds(s, b + 1);
                    let c = sp_skip_ws(s, b + 1);
                    lemma_parse_string_next(s, c);
                    match sp_parse_string(s, c) {
                        None => {},
                        Some((val, d)) => {
                            lemma_skip_ws_bounds(s, d);
                            let f = sp_skip_ws(s, d);
                            if f < s.len() && s[f] == ',' {
                                lemma_skip_ws_bounds(s, f + 1);
                            }
                        },
                    }
                }
            },
        }
    }
}

proof fn lemma_parse_pairs_next(s: Seq<char>, i: int, e: ElementModel)
    ensures
        match sp_parse_pairs(s, i, e) {
            Some((e2, m)) => i < m <= s.len(),
            None => true,
        },
    decreases s.len() - i,
{
    if 0 <= i <= s.len() {
        lemma_parse_string_next(s, i);
        match sp_parse_string(s, i) {
            None => {},
            Some((key, a)) => {
                lemma_skip_ws_bounds(s, a);
                let b = sp_skip_ws(s, a);
                if b < s.len() && s[b] == ':' {
                    lemma_skip_ws_bounds(s, b + 1);
                    let c = sp_skip_ws(s, b + 1);
                    lemma_parse_string_next(s, c);
                    match sp_parse_string(s, c) {
                        None => {},
                        Some((val, d)) => {
                            match sp_apply_field(e, key, val) {
                                None => {},
                                Some(e2) => {
                                    lemma_skip_ws_bounds(s, d);
                                    let f = sp_skip_ws(s, d);
                                    if f < s.len() && s[f] == ',' {
                                        lemma_skip_ws_bounds(s, f + 1);
                                        let g = sp_skip_ws(s, f + 1);
                                        lemma_parse_pairs_next(s, g, e2);
                                    }
                                },
                            }
                        },
                    }
                }
            },
        }
    }
}

/// One object: `{}` or `{ pairs }`, and the position after its `}`.
pub open spec fn sp_parse_element(s: Seq<char>, i: int) -> Option<(ElementModel, int)> {
    if 0 <= i < s.len() && s[i] == '{' {
        let a = sp_skip_ws(s, i + 1);
        if a < s.len() && s[a] == '}' {
            Some((empty_element(), a + 1))
        } else {
            sp_parse_pairs(s, a, empty_element())
        }
    } else {
        None
    }
}

proof fn lemma_parse_element_next(s: Seq<char>, i: int)
    requires
        0 <= i <= s.len(),
    ensures
        match sp_parse_element(s, i) {
            Some((e, m)) => i < m <= s.len(),
            None => true,
        },
{
    if 0 <= i < s.len() && s[i] == '{' {
        lemma_skip_ws_bounds(s, i + 1);
        let a = sp_skip_ws(s, i + 1);
        lemma_parse_pairs_next(s, a, empty_element());
    }
}

/// The elements of the array from the first `{` to just past the
/// closing `]`, appended to `acc` in input order.
pub open spec fn sp_parse_items(s: Seq<char>, i: int, acc: Seq<ElementModel>) -> Option<
    (Seq<ElementModel>, int),
>
    decreases s.len() - i,
    via sp_parse_items_dec
{
    if !(0 <= i <= s.len()) {
        None
    } else {
        match sp_parse_element(s, i) {
            None => None,
            Some((e, a)) => {
                let b = sp_skip_ws(s, a);
                if b < s.len() && s[b] == ',' {
                    let c = sp_skip_ws(s, b + 1);
                    sp_parse_items(s, c, acc.push(e))
                } else if b < s.len() && s[b] == ']' {
                    Some((acc.push(e), b + 1))
                } else {
                    None
                }
            },
        }
    }
}

#[via_fn]
proof fn sp_parse_items_dec(s: Seq<char>, i: int, acc: Seq<ElementModel>) {
    if 0 <= i <= s.len() {
        lemma_parse_element_next(s, i);
        match sp_parse_element(s, i) {
            None => {},
            Some((e, a)) => {
                lemma_skip_ws_bounds(s, a);
                let b = sp_skip_ws(s, a);
                if b < s.len() && s[b] == ',' {
                    lemma_skip_ws_bounds(s, b + 1);
                }
            },
        }
    }
}

/// The whole input: one array, nothing but whitespace around it.
pub open spec fn sp_parse_matching_list(s: Seq<char>) -> Option<Seq<ElementModel>> {
    let i = sp_skip_ws(s, 0);
    if i < s.len() && s[i] == '[' {
        let a = sp_skip_ws(s, i + 1);
        let r = if a < s.len() && s[a] == ']' {
            Some((Seq::<ElementModel>::empty(), a + 1))
        } else {
            sp_parse_items(s, a, Seq::<ElementModel>::empty())
        };
        match r {
            Some((items, m)) => {
                if sp_skip_ws(s, m) == s.len() {
                    Some(items)
                } else {
                    None
                }
            },
            None => None,
        }
    } else {
        None
    }
}

fn skip_ws(s: &str, n: usize, i: usize) -> (r: usize)
    requires
        n == s@.len(),
        i <= n,
    ensures
        i <= r <= n,
        r as int == sp_skip_ws(s@, i as int),
    decreases n - i,
{
    if i < n {
        let c = s.get_char(i);
        if c == ' ' || c == '\t' || c == '\n' || c == '\r' {
            return skip_ws(s, n, i + 1);
        }
    }
    i
}

fn string_end(s: &str, n: usize, i: usize) -> (r: Option<usize>)
    requires
        n == s@.len(),
        i <= n,
    ensures
        match r {
            Some(j) => i <= j < n && sp_string_end(s@, i as int) == Some(j as int),
            None => sp_string_end(s@, i as int) is None,
        },
    decreases n - i,
{
    if i >= n {
        return None;
    }
    let c = s.get_char(i);
    if c == '"' {
        return Some(i);
    }
    if c == '\\' {
        return None;
    }
    string_end(s, n, i + 1)
}

fn parse_string(s: &str, n: usize, i: usize) -> (r: Option<(String, usize)>)
    requires
        n == s@.len(),
        i <= n,
    ensures
        match r {
            Some((v, m)) => sp_parse_string(s@, i as int) == Some((v@, m as int)) && i + 2 <= m
                <= n,
            None => sp_parse_string(s@, i as int) is None,
        },
{
    if i < n && s.get_char(i) == '"' {
        match string_end(s, n, i + 1) {
            Some(j) => {
                let content = s.substring_char(i + 1, j);
                Some((String::from_str(content), j + 1))
            },
            None => None,
        }
    } else {
        None
    }
}

/// Records one parsed pair on the element being built.
fn apply_field(e: ListElement, key: &String, val: String) -> (r: Option<ListElement>)
    ensures
        match r {
            Some(e2) => sp_apply_field(e@, key@, val@) == Some(e2@),
            None => sp_apply_field(e@, key@, val@) is None,
        },
{
    let ListElement { origin, sender, destination, recipient } = e;
    if str_eq(key.as_str(), "origin") {
        match origin {
            None => Some(ListElement { origin: Some(val), sender, destination, recipient }),
            Some(prev) => None,
        }
    } else if str_eq(key.as_str(), "destination") {
        match destination {
            None => Some(ListElement { origin, sender, destination: Some(val), recipient }),
            Some(prev) => None,
        }
    } else if str_eq(key.as_str(), "sender") {
        match sender {
            None => match encode_recipient(val.as_str()) {
                Ok(bytes) => Some(
                    ListElement { origin, sender: Some(bytes), destination, recipient },
                ),
                Err(bad) => None,
            },
            Some(prev) => None,
        }
    } else if str_eq(key.as_str(), "recipient") {
        match recipient {
            None => match encode_recipient(val.as_str()) {
                Ok(bytes) => Some(
                    ListElement { origin, sender, destination, recipient: Some(bytes) },
                ),
                Err(bad) => None,
            },
            Some(prev) => None,
        }
    } else {
        None
    }
}

fn parse_pairs(s: &str, n: usize, i: usize, e: ListElement) -> (r: Option<(ListElement, usize)>)
    requires
        n == s@.len(),
        i <= n,
    ensures
        match r {
            Some((e2, m)) => sp_parse_pairs(s@, i as int, e@) == Some((e2@, m as int)) && i < m
                <= n,
            None => sp_parse_pairs(s@, i as int, e@) is None,
        },
    decreases n - i,
{
    match parse_string(s, n, i) {
        None => None,
        Some((key, a)) => {
            let b = skip_ws(s, n, a);
            if b < n && s.get_char(b) == ':' {
                let c = skip_ws(s, n, b + 1);
                match parse_string(s, n, c) {
                    None => None,
                    Some((val, d)) => match apply_field(e, &key, val) {
                        None => None,
                        Some(e2) => {
                            let f = skip_ws(s, n, d);
                            if f < n && s.get_char(f) == ',' {
                                let g = skip_ws(s, n, f + 1);
                                parse_pairs(s, n, g, e2)
                            } else if f < n && s.get_char(f) == '}' {
                                Some((e2, f + 1))
                            } else {
                                None
                            }
                        },
                    },
                }
            } else {
                None
            }
        },
    }
}

fn parse_element(s: &str, n: usize, i: usize) -> (r: Option<(ListElement, usize)>)
    requires
        n == s@.len(),
        i <= n,
    ensures
        match r {
            Some((e, m)) => sp_parse_element(s@, i as int) == Some((e@, m as int)) && i < m <= n,
            None => sp_parse_element(s@, i as int) is None,
        },
{
    if i < n && s.get_char(i) == '{' {
        let a = skip_ws(s, n, i + 1);
        let fresh = ListElement::unconstrained();
        proof {
            assert(fresh@ == empty_element());
        }
        if a < n && s.get_char(a) == '}' {
            Some((fresh, a + 1))
        } else {
            parse_pairs(s, n, a, fresh)
        }
    } else {
        None
    }
}

/// The element models of a vector of elements, in order.
pub open spec fn models_of(v: Seq<ListElement>) -> Seq<ElementModel> {
    v.map(|k: int, e: ListElement| e@)
}

fn parse_items(s: &str, n: usize, i: usize, acc: Vec<ListElement>) -> (r: Option<
    (Vec<ListElement>, usize),
>)
    requires
        n == s@.len(),
        i <= n,
    ensures
        match r {
            Some((v, m)) => sp_parse_items(s@, i as int, models_of(acc@)) == Some(
                (models_of(v@), m as int),
            ) && i < m <= n,
            None => sp_parse_items(s@, i as int, models_of(acc@)) is None,
        },
    decreases n - i,
{
    match parse_element(s, n, i) {
        None => None,
        Some((e, a)) => {
            let ghost pushed_models = models_of(acc@).push(e@);
            let mut acc2 = acc;
            acc2.push(e);
            proof {
                assert(models_of(acc2@) =~= pushed_models);
            }
            let b = skip_ws(s, n, a);
            if b < n && s.get_char(b) == ',' {
                let c = skip_ws(s, n, b + 1);
                parse_items(s, n, c, acc2)
            } else if b < n && s.get_char(b) == ']' {
                Some((acc2, b + 1))
            } else {
                None
            }
        },
    }
}

/// Parses the matching-list flag value. The whole input must be one
/// array in the accepted grammar; anything else is
/// `InvalidMatchingList`, reported before any network work.
pub fn parse_matching_list(s: &str) -> (r: Result<MatchingList, CliError>)
    ensures
        match r {
            Ok(l) => sp_parse_matching_list(s@) == Some(l@),
            Err(e) => sp_parse_matching_list(s@) is None && e == CliError::InvalidMatchingList,
        },
{
    let n = s.unicode_len();
    let i = skip_ws(s, n, 0);
    if i < n && s.get_char(i) == '[' {
        let a = skip_ws(s, n, i + 1);
        let parsed: Option<(Vec<ListElement>, usize)> = if a < n && s.get_char(a) == ']' {
            let none_yet: Vec<ListElement> = Vec::new();
            proof {
                assert(models_of(none_yet@) =~= Seq::<ElementModel>::empty());
            }
            Some((none_yet, a + 1))
        } else {
            let none_yet: Vec<ListElement> = Vec::new();
            proof {
                assert(models_of(none_yet@) =~= Seq::<ElementModel>::empty());
            }
            parse_items(s, n, a, none_yet)
        };
        match parsed {
            Some((v, m)) => {
                let t = skip_ws(s, n, m);
                if t == n {
                    Ok(MatchingList { elements: v })
                } else {
                    Err(CliError::InvalidMatchingList)
                }
            },
            None => Err(CliError::InvalidMatchingList),
        }
    } else {
        Err(CliError::InvalidMatchingList)
    }
}

} // verus!
