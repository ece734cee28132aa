//! What the library asks of the JSON codec: quoting a string, checking a
//! document, and cutting out the text of a raw JSON value.
use vstd::prelude::*;

verus! {

/// A lower-case hexadecimal digit.
pub open spec fn hex_digit(d: u32) -> char {
    if d < 10 {
        crate::text::digit_char(d as nat)
    } else if d == 10 {
        'a'
    } else if d == 11 {
        'b'
    } else if d == 12 {
        'c'
    } else if d == 13 {
        'd'
    } else if d == 14 {
        'e'
    } else {
        'f'
    }
}

/// How serde_json writes one character inside a JSON string: `"` and `\`
/// behind a backslash, backspace, form feed, line feed, carriage return and
/// tab as `\b \f \n \r \t`, the other characters below U+0020 as
/// `\u00XX` (lower-case hex), every other character as itself.
pub open spec fn json_escaped_char(c: char) -> Seq<char> {
    if c == '"' {
        seq!['\\', '"']
    } else if c == '\\' {
        seq!['\\', '\\']
    } else if c == '\u{8}' {
        seq!['\\', 'b']
    } else if c == '\u{c}' {
        seq!['\\', 'f']
    } else if c == '\n' {
        seq!['\\', 'n']
    } else if c == '\r' {
        seq!['\\', 'r']
    } else if c == '\t' {
        seq!['\\', 't']
    } else if (c as u32) < 0x20 {
        seq!['\\', 'u', '0', '0', hex_digit((c as u32) / 16), hex_digit((c as u32) % 16)]
    } else {
        seq![c]
    }
}

/// The characters of a string, each as serde_json writes it in a string.
pub open spec fn json_escaped(s: Seq<char>) -> Seq<char>
    decreases s.len(),
{
    if s.len() == 0 {
        Seq::empty()
    } else {
        json_escaped(s.drop_last()) + json_escaped_char(s.last())
    }
}

/// The JSON text of a string value: the escaped string in double quotes.
pub open spec fn json_string_literal(s: Seq<char>) -> Seq<char> {
    seq!['"'] + json_escaped(s) + seq!['"']
}

/// The text of the single JSON value that `bytes` hold, or `None` when they
/// hold no JSON value.
pub uninterp spec fn json_raw_text(bytes: Seq<u8>) -> Option<Seq<char>>;

/// The JSON document that `bytes` hold, as serde_json writes it back after
/// reading it into a `serde_json::Value`; `None` when they hold none.
pub uninterp spec fn json_normalized(bytes: Seq<u8>) -> Option<Seq<u8>>;

/// Calls `Display::fmt` of `serde_json::Value::String`: the compact JSON text
/// of the string value `s`, as serde_json's escape table writes it
/// (`json_string_literal`).
#[verifier::external_body]
pub(crate) fn json_quote(s: &str) -> (res: String)
    ensures
        res@ == json_string_literal(s@),
{
    serde_json::Value::String(s.to_owned()).to_string()
}

/// Calls `serde_json::from_slice::<&RawValue>`: on success, the text of the
/// value that was read (named by `json_raw_text`); `None` when the bytes are
/// not one JSON value.
#[verifier::external_body]
pub(crate) fn raw_json_text(bytes: &[u8]) -> (res: Option<String>)
    ensures
        res is None <==> json_raw_text(bytes@) is None,
        res matches Some(t) ==> json_raw_text(bytes@) == Some(t@),
{
    match serde_json::from_slice::<&serde_json::value::RawValue>(bytes) {
        Ok(raw) => Some(raw.get().to_owned()),
        Err(_) => None,
    }
}

/// Calls `serde_json::from_slice::<serde_json::Value>` and writes the value
/// back with `serde_json::to_vec` (named by `json_normalized`); `None` when
/// the bytes are no JSON document.
#[verifier::external_body]
pub(crate) fn normalize_json_document(bytes: &[u8]) -> (res: Option<Vec<u8>>)
    ensures
        res is None <==> json_normalized(bytes@) is None,
        res matches Some(d) ==> json_normalized(bytes@) == Some(d@),
{
    match serde_json::from_slice::<serde_json::Value>(bytes) {
        Ok(v) => serde_json::to_vec(&v).ok(),
        Err(_) => None,
    }
}

} // verus!
