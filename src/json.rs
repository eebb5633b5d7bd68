//! The lookups this library makes in JSON text through serde_json. Each one
//! parses the text and reads one thing from it; its result is named over the
//! text, so contracts can speak of what a reply holds.
use vstd::prelude::*;

verus! {

/// The view of an optional string.
pub open spec fn opt_text(o: Option<String>) -> Option<Seq<char>> {
    match o {
        Some(s) => Some(s@),
        None => None,
    }
}

/// The length of the JSON text's array; `None` where the text is not JSON or
/// not an array.
pub uninterp spec fn json_array_len(text: Seq<char>) -> Option<nat>;

/// The string under `key` of the JSON text's top-level object.
pub uninterp spec fn json_member_text(text: Seq<char>, key: Seq<char>) -> Option<Seq<char>>;

/// The string under `key` of element `index` of the JSON text's array.
pub uninterp spec fn json_entry_text(text: Seq<char>, index: nat, key: Seq<char>) -> Option<
    Seq<char>,
>;

/// The decimal text of the number under `outer`, then `inner`, of element
/// `index` of the JSON text's array.
pub uninterp spec fn json_entry_number(
    text: Seq<char>,
    index: nat,
    outer: Seq<char>,
    inner: Seq<char>,
) -> Option<Seq<char>>;

/// The boolean under `outer`, then `inner`, of element `index` of the JSON
/// text's array.
pub uninterp spec fn json_entry_bool(
    text: Seq<char>,
    index: nat,
    outer: Seq<char>,
    inner: Seq<char>,
) -> Option<bool>;

pub open spec fn hex_digit(d: u32) -> char {
    if d < 10 {
        (d + ('0' as u32)) as char
    } else {
        (d - 10 + ('a' as u32)) as char
    }
}

/// How one character stands in a JSON string: the quote and the backslash
/// after a backslash, the usual short escapes, other controls below 32 as
/// `\u00xx` in lower-case hex, and every other character as it is.
pub open spec fn escape_char(c: char) -> Seq<char> {
    if c == '"' {
        seq!['\\', '"']
    } else if c == '\\' {
        seq!['\\', '\\']
    } else if c == '\u{8}' {
        seq!['\\', 'b']
    } else if c == '\t' {
        seq!['\\', 't']
    } else if c == '\n' {
        seq!['\\', 'n']
    } else if c == '\u{c}' {
        seq!['\\', 'f']
    } else if c == '\r' {
        seq!['\\', 'r']
    } else if (c as u32) < 32 {
        seq!['\\', 'u', '0', '0', hex_digit((c as u32) / 16), hex_digit((c as u32) % 16)]
    } else {
        seq![c]
    }
}

pub open spec fn escaped(s: Seq<char>) -> Seq<char>
    decreases s.len(),
{
    if s.len() == 0 {
        Seq::empty()
    } else {
        escaped(s.drop_last()) + escape_char(s.last())
    }
}

/// What serde_json writes for a string: the escaped text between quotes.
pub open spec fn json_string_of(s: Seq<char>) -> Seq<char> {
    seq!['"'] + escaped(s) + seq!['"']
}

/// Relies on serde_json::from_str and serde_json::Value::as_array: the number
/// of elements of the text's array.
#[verifier::external_body]
pub(crate) fn array_len(text: &str) -> (r: Option<usize>)
    ensures
        r matches Some(n) ==> json_array_len(text@) == Some(n as nat),
        r is None <==> json_array_len(text@) is None,
{
    let v = serde_json::from_str::<serde_json::Value>(text).ok()?;
    Some(v.as_array()?.len())
}

/// Relies on serde_json::from_str, serde_json::Value::get and
/// serde_json::Value::as_str: the string under `key` of the text's object.
#[verifier::external_body]
pub(crate) fn member_text(text: &str, key: &str) -> (r: Option<String>)
    ensures
        opt_text(r) == json_member_text(text@, key@),
{
    let v = serde_json::from_str::<serde_json::Value>(text).ok()?;
    Some(v.get(key)?.as_str()?.to_string())
}

/// Relies on serde_json::from_str, serde_json::Value::get and
/// serde_json::Value::as_str: the string under `key` of an array element.
#[verifier::external_body]
pub(crate) fn entry_text(text: &str, index: usize, key: &str) -> (r: Option<String>)
    ensures
        opt_text(r) == json_entry_text(text@, index as nat, key@),
{
    let v = serde_json::from_str::<serde_json::Value>(text).ok()?;
    Some(v.get(index)?.get(key)?.as_str()?.to_string())
}

/// Relies on serde_json::from_str, serde_json::Value::get,
/// serde_json::Value::as_number and the number's `Display`: the decimal text of
/// a number nested two levels in an array element.
#[verifier::external_body]
pub(crate) fn entry_number(text: &str, index: usize, outer: &str, inner: &str) -> (r: Option<String>)
    ensures
        opt_text(r) == json_entry_number(text@, index as nat, outer@, inner@),
{
    let v = serde_json::from_str::<serde_json::Value>(text).ok()?;
    Some(v.get(index)?.get(outer)?.get(inner)?.as_number()?.to_string())
}

/// Relies on serde_json::from_str, serde_json::Value::get and
/// serde_json::Value::as_bool: a boolean nested two levels in an array element.
#[verifier::external_body]
pub(crate) fn entry_bool(text: &str, index: usize, outer: &str, inner: &str) -> (r: Option<bool>)
    ensures
        r == json_entry_bool(text@, index as nat, outer@, inner@),
{
    let v = serde_json::from_str::<serde_json::Value>(text).ok()?;
    v.get(index)?.get(outer)?.get(inner)?.as_bool()
}

/// Relies on serde_json::to_string on a `str`: the JSON string literal of the
/// text. Serializing a `str` does not fail.
#[verifier::external_body]
pub(crate) fn json_quoted(s: &str) -> (r: String)
    ensures
        r@ == json_string_of(s@),
{
    match serde_json::to_string(s) {
        Ok(q) => q,
        Err(_) => String::new(),
    }
}

} // verus!
