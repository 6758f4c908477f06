//! What the library reads of JSON documents and how it quotes text into
//! them. Parsing and serialising are serde_json's; each reader here parses
//! a document and hands back one plain value found at a JSON pointer.

use vstd::prelude::*;

use crate::text::opt_chars;

verus! {

/// Whether serde_json parses `text` as a JSON document.
pub uninterp spec fn json_parses(text: Seq<char>) -> bool;

/// The string at JSON pointer `pointer` of the document `text`, when the
/// document parses and holds a string there.
pub uninterp spec fn json_str_at(text: Seq<char>, pointer: Seq<char>) -> Option<Seq<char>>;

/// The unsigned integer at JSON pointer `pointer` of the document `text`,
/// when the document parses and holds one there.
pub uninterp spec fn json_u64_at(text: Seq<char>, pointer: Seq<char>) -> Option<u64>;

/// The length of the array at JSON pointer `pointer` of the document
/// `text`, when the document parses and holds an array there.
pub uninterp spec fn json_len_at(text: Seq<char>, pointer: Seq<char>) -> Option<usize>;

/// The compact JSON text of the value at JSON pointer `pointer` of the
/// document `text`, when the document parses and has a value there.
pub uninterp spec fn json_value_at(text: Seq<char>, pointer: Seq<char>) -> Option<Seq<char>>;

/// A lower-case hexadecimal digit.
pub open spec fn hex_lower(d: nat) -> char {
    if d < 10 {
        (48 + d) as char
    } else {
        (87 + d) as char
    }
}

/// How serde_json writes a character inside a JSON string: `"` and `\`
/// after a backslash; backspace, form feed, newline, carriage return and tab
/// as `\b`, `\f`, `\n`, `\r` and `\t`; the other characters below U+0020
/// as `\u00` and two lower-case hexadecimal digits; any other character as
/// itself.
pub open spec fn json_escape(c: char) -> Seq<char> {
    if c == '"' {
        seq!['\\', '"']
    } else if c == '\\' {
        seq!['\\', '\\']
    } else if c == '\x08' {
        seq!['\\', 'b']
    } else if c == '\x0c' {
        seq!['\\', 'f']
    } else if c == '\n' {
        seq!['\\', 'n']
    } else if c == '\r' {
        seq!['\\', 'r']
    } else if c == '\t' {
        seq!['\\', 't']
    } else if (c as u32) < 0x20 {
        seq!['\\', 'u', '0', '0', hex_lower((c as u32 / 16) as nat), hex_lower((c as u32 % 16) as nat)]
    } else {
        seq![c]
    }
}

/// The characters of `s`, each written as serde_json writes it inside a
/// JSON string.
pub open spec fn json_escaped(s: Seq<char>) -> Seq<char>
    decreases s.len(),
{
    if s.len() == 0 {
        seq![]
    } else {
        json_escaped(s.drop_last()) + json_escape(s.last())
    }
}

/// The JSON string literal that serde_json writes for `s`: its escaped
/// characters between double quotes.
pub open spec fn json_quote(s: Seq<char>) -> Seq<char> {
    seq!['"'] + json_escaped(s) + seq!['"']
}

/// `serde_json::from_str::<Value>`: whether `text` is a JSON document.
#[verifier::external_body]
pub(crate) fn parses(text: &str) -> (r: bool)
    ensures
        r == json_parses(text@),
{
    serde_json::from_str::<serde_json::Value>(text).is_ok()
}

/// `serde_json::from_str::<Value>`, then `Value::pointer` and
/// `Value::as_str`: the string at `pointer`, if the document parses and
/// holds one there.
#[verifier::external_body]
pub(crate) fn str_at(text: &str, pointer: &str) -> (r: Option<String>)
    ensures
        opt_chars(r) == json_str_at(text@, pointer@),
{
    let value = serde_json::from_str::<serde_json::Value>(text).ok()?;
    value.pointer(pointer)?.as_str().map(str::to_string)
}

/// `serde_json::from_str::<Value>`, then `Value::pointer` and
/// `Value::as_u64`: the unsigned integer at `pointer`, if there is one.
#[verifier::external_body]
pub(crate) fn u64_at(text: &str, pointer: &str) -> (r: Option<u64>)
    ensures
        r == json_u64_at(text@, pointer@),
{
    let value = serde_json::from_str::<serde_json::Value>(text).ok()?;
    value.pointer(pointer)?.as_u64()
}

/// `serde_json::from_str::<Value>`, then `Value::pointer` and
/// `Value::as_array`: the length of the array at `pointer`, if there is one.
#[verifier::external_body]
pub(crate) fn len_at(text: &str, pointer: &str) -> (r: Option<usize>)
    ensures
        r == json_len_at(text@, pointer@),
{
    let value = serde_json::from_str::<serde_json::Value>(text).ok()?;
    value.pointer(pointer)?.as_array().map(|items| items.len())
}

/// `serde_json::from_str::<Value>`, then `Value::pointer` and `Value`'s
/// `Display`: the compact JSON text of the value at `pointer`, if there is
/// one.
#[verifier::external_body]
pub(crate) fn value_at(text: &str, pointer: &str) -> (r: Option<String>)
    ensures
        opt_chars(r) == json_value_at(text@, pointer@),
{
    let value = serde_json::from_str::<serde_json::Value>(text).ok()?;
    value.pointer(pointer).map(|found| found.to_string())
}

/// `serde_json::to_string` on a string: its JSON literal, quotes and
/// escapes included, as `format_escaped_str` in serde_json's `ser.rs`
/// writes it. Serialising a string into a `String` cannot fail.
#[verifier::external_body]
pub(crate) fn quote(s: &str) -> (r: String)
    ensures
        r@ == json_quote(s@),
{
    serde_json::to_string(s).unwrap_or_default()
}

} // verus!
