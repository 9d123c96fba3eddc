//! JSON documents as text. Reading and quoting go through `serde_json`; what
//! the crate returns is named here and relied on by the rest of the library.
use vstd::prelude::*;

use crate::text::{starts_with, slice_text, starts_with_text};

verus! {

/// Whether `s` is one JSON document, as `serde_json::from_str` accepts it.
pub uninterp spec fn json_valid(s: Seq<char>) -> bool;

/// The compact text of the member `key` of the JSON object `doc`, if `doc` is
/// a JSON object that has that member.
pub uninterp spec fn json_member_text(doc: Seq<char>, key: Seq<char>) -> Option<Seq<char>>;

/// The compact texts of the elements of `doc`, if `doc` is a JSON array.
pub uninterp spec fn json_item_texts(doc: Seq<char>) -> Option<Seq<Seq<char>>>;

/// The characters of the JSON string `doc`, if `doc` is a JSON string.
pub uninterp spec fn json_string_value(doc: Seq<char>) -> Option<Seq<char>>;

/// The value of the JSON boolean `doc`, if `doc` is `true` or `false`.
pub uninterp spec fn json_bool_value(doc: Seq<char>) -> Option<bool>;

pub open spec fn hex_digit(n: int) -> char {
    seq!['0', '1', '2', '3', '4', '5', '6', '7', '8', '9', 'a', 'b', 'c', 'd', 'e', 'f'][n]
}

/// How `serde_json` writes one character inside a string: `"` and `\` and the
/// control characters with a short escape get it, the other control
/// characters below U+0020 are written `\u00xx`, anything else as it is.
pub open spec fn escaped_char(c: char) -> Seq<char> {
    if c == '"' {
        seq!['\\', '"']
    } else if c == '\\' {
        seq!['\\', '\\']
    } else if c == '\u{8}' {
        seq!['\\', 'b']
    } else if c == '\t' {
        seq!['\\', 't']
    } else if c == '\n' {
        seq!['\\', 'n']
    } else if c == '\u{c}' {
        seq!['\\', 'f']
    } else if c == '\r' {
        seq!['\\', 'r']
    } else if (c as u32) < 0x20 {
        seq!['\\', 'u', '0', '0', hex_digit(c as int / 16), hex_digit(c as int % 16)]
    } else {
        seq![c]
    }
}

/// Every character of `s` escaped, in order.
pub open spec fn escaped(s: Seq<char>) -> Seq<char>
    decreases s.len(),
{
    if s.len() == 0 {
        Seq::empty()
    } else {
        escaped(s.drop_last()) + escaped_char(s.last())
    }
}

/// `s` written as a JSON string literal: quoted, each character escaped.
pub open spec fn json_quoted(s: Seq<char>) -> Seq<char> {
    seq!['"'] + escaped(s) + seq!['"']
}

/// Relies on `serde_json::from_str::<Value>`: whether `s` parses as JSON.
/// `{}` and `[]` do.
#[verifier::external_body]
pub(crate) fn is_json(s: &str) -> (r: bool)
    ensures
        r == json_valid(s@),
        s@ == seq!['{', '}'] ==> r,
        s@ == seq!['[', ']'] ==> r,
{
    serde_json::from_str::<serde_json::Value>(s).is_ok()
}

/// Relies on `serde_json::from_str::<Value>`, `Value::get` and the compact
/// `Display` of `Value`: the member `key` of the object `doc`, as JSON text.
#[verifier::external_body]
pub(crate) fn json_member(doc: &str, key: &str) -> (r: Option<String>)
    ensures
        match r {
            Some(m) => json_member_text(doc@, key@) == Some(m@),
            None => json_member_text(doc@, key@) is None,
        },
{
    match serde_json::from_str::<serde_json::Value>(doc) {
        Ok(v) => match v.get(key) {
            Some(m) => Some(m.to_string()),
            None => None,
        },
        Err(_) => None,
    }
}

/// Relies on `serde_json::from_str::<Value>`, `Value::as_array` and the compact
/// `Display` of `Value`: the elements of the array `doc`, each as JSON text.
#[verifier::external_body]
pub(crate) fn json_items(doc: &str) -> (r: Option<Vec<String>>)
    ensures
        match r {
            Some(v) => json_item_texts(doc@) == Some(v@.map_values(|x: String| x@)),
            None => json_item_texts(doc@) is None,
        },
{
    match serde_json::from_str::<serde_json::Value>(doc) {
        Ok(v) => match v.as_array() {
            Some(a) => Some(a.iter().map(|i| i.to_string()).collect()),
            None => None,
        },
        Err(_) => None,
    }
}

/// Relies on `serde_json::from_str::<Value>` and `Value::as_str`: the
/// characters of the JSON string `doc`.
#[verifier::external_body]
pub(crate) fn json_str(doc: &str) -> (r: Option<String>)
    ensures
        match r {
            Some(t) => json_string_value(doc@) == Some(t@),
            None => json_string_value(doc@) is None,
        },
{
    match serde_json::from_str::<serde_json::Value>(doc) {
        Ok(v) => match v.as_str() {
            Some(t) => Some(t.to_string()),
            None => None,
        },
        Err(_) => None,
    }
}

/// Relies on `serde_json::from_str::<Value>` and `Value::as_bool`: the value
/// of the JSON boolean `doc`.
#[verifier::external_body]
pub(crate) fn json_bool(doc: &str) -> (r: Option<bool>)
    ensures
        r == json_bool_value(doc@),
{
    match serde_json::from_str::<serde_json::Value>(doc) {
        Ok(v) => v.as_bool(),
        Err(_) => None,
    }
}

/// Relies on `serde_json::to_string::<str>` (its `format_escaped_str` and
/// `ESCAPE` table): `s` quoted, each character escaped as `escaped_char` says.
/// Serializing a `str` does not fail.
#[verifier::external_body]
pub(crate) fn quote(s: &str) -> (r: String)
    ensures
        r@ == json_quoted(s@),
{
    match serde_json::to_string(s) {
        Ok(q) => q,
        Err(_) => String::new(),
    }
}

/// The text of a string member of `doc`, or of any other member as JSON text;
/// empty where `doc` has no such member.
pub open spec fn member_display(doc: Seq<char>, key: Seq<char>) -> Seq<char> {
    match json_member_text(doc, key) {
        Some(m) => match json_string_value(m) {
            Some(t) => t,
            None => m,
        },
        None => Seq::empty(),
    }
}

/// The member `key` of `doc` as display text: a string's characters, any other
/// value's JSON text, or empty where it is missing.
pub fn member_as_text(doc: &str, key: &str) -> (r: String)
    ensures
        r@ == member_display(doc@, key@),
{
    match json_member(doc, key) {
        Some(m) => match json_str(m.as_str()) {
            Some(t) => t,
            None => m,
        },
        None => String::new(),
    }
}

/// The string member `key` of `doc`, if there is one and it is a string.
pub open spec fn member_string(doc: Seq<char>, key: Seq<char>) -> Option<Seq<char>> {
    match json_member_text(doc, key) {
        Some(m) => json_string_value(m),
        None => None,
    }
}

pub fn member_as_string(doc: &str, key: &str) -> (r: Option<String>)
    ensures
        match r {
            Some(t) => member_string(doc@, key@) == Some(t@),
            None => member_string(doc@, key@) is None,
        },
{
    match json_member(doc, key) {
        Some(m) => json_str(m.as_str()),
        None => None,
    }
}

/// Platform output that holds one object where a list was asked for, wrapped
/// into a list of one; other output as it is.
pub open spec fn as_json_list(s: Seq<char>) -> Seq<char> {
    if starts_with(s, seq!['{']) {
        seq!['['] + s + seq![']']
    } else {
        s
    }
}

/// Output shaped as one object becomes a list of that one object; output
/// shaped as a list passes through unchanged.
pub proof fn lemma_list_shape(s: Seq<char>)
    ensures
        s.len() > 0 && s[0] == '{' ==> as_json_list(s) == seq!['['] + s + seq![']'],
        s.len() > 0 && s[0] == '[' ==> as_json_list(s) == s,
{
    if s.len() > 0 {
        assert(s[0] == '{' ==> s.take(1) =~= seq!['{']);
        assert(s[0] == '[' ==> s.take(1)[0] != '{');
    }
}

/// Wraps output that begins with `{` into `[` and `]`.
pub fn normalize_json_list(s: &str) -> (r: String)
    ensures
        r@ == as_json_list(s@),
{
    let open = "{";
    proof {
        reveal_strlit("{");
        reveal_strlit("[");
        reveal_strlit("]");
    }
    assert(open@ =~= seq!['{']);
    if starts_with_text(s, open) {
        let mut r = "[".to_string();
        r.append(s);
        r.append("]");
        assert(r@ =~= seq!['['] + s@ + seq![']']);
        r
    } else {
        let n = s.unicode_len();
        assert(s@.subrange(0, n as int) =~= s@);
        slice_text(s, 0, n)
    }
}

} // verus!
