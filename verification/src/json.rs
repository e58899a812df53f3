//! Reading JSON documents and writing JSON strings with `serde_json`.
//!
//! A document is parsed again for every value that is taken from it: the documents here are single
//! lines, and what is taken from them is then a function of the line alone.
use vstd::prelude::*;

use crate::text;

verus! {

/// What `serde_json::from_str` says is wrong with a document, if anything is.
pub uninterp spec fn document_error(document: Seq<char>) -> Option<Seq<char>>;

/// The string that `Value::as_str` gives for the value that `Value::pointer` finds.
pub uninterp spec fn string_at(document: Seq<char>, pointer: Seq<char>) -> Option<Seq<char>>;

/// The number that `Value::as_u64` gives for the value that `Value::pointer` finds.
pub uninterp spec fn number_at(document: Seq<char>, pointer: Seq<char>) -> Option<u64>;

/// The length of the array that `Value::as_array` gives for the value that `Value::pointer` finds.
pub uninterp spec fn array_len_at(document: Seq<char>, pointer: Seq<char>) -> Option<usize>;

/// The document as `Value` displays it: without white space, the members of objects in order.
pub uninterp spec fn displayed(document: Seq<char>) -> Seq<char>;

/// The text of an optional string.
pub open spec fn text_of(s: Option<String>) -> Option<Seq<char>> {
    match s {
        Some(t) => Some(t@),
        None => None,
    }
}

/// `serde_json::from_str`, of which only the error is kept, as text. The result is
/// [`document_error`] of the document.
#[verifier::external_body]
pub(crate) fn error_in(document: &str) -> (r: Option<String>)
    ensures
        text_of(r) == document_error(document@),
{
    serde_json::from_str::<serde_json::Value>(document).err().map(|e| e.to_string())
}

/// `serde_json::Value::as_str` on the value at `pointer`, nothing where the document is not JSON or
/// there is no such value. The result is [`string_at`] of the document and the pointer.
#[verifier::external_body]
pub(crate) fn string_in(document: &str, pointer: &str) -> (r: Option<String>)
    ensures
        text_of(r) == string_at(document@, pointer@),
{
    let value: serde_json::Value = serde_json::from_str(document).ok()?;
    value.pointer(pointer)?.as_str().map(|s| s.to_owned())
}

/// `serde_json::Value::as_u64` on the value at `pointer`, nothing where the document is not JSON or
/// there is no such value. The result is [`number_at`] of the document and the pointer.
#[verifier::external_body]
pub(crate) fn number_in(document: &str, pointer: &str) -> (r: Option<u64>)
    ensures
        r == number_at(document@, pointer@),
{
    let value: serde_json::Value = serde_json::from_str(document).ok()?;
    value.pointer(pointer)?.as_u64()
}

/// The length of `serde_json::Value::as_array` on the value at `pointer`, nothing where the document
/// is not JSON or there is no such array. The result is [`array_len_at`] of the document and the
/// pointer.
#[verifier::external_body]
pub(crate) fn array_len_in(document: &str, pointer: &str) -> (r: Option<usize>)
    ensures
        r == array_len_at(document@, pointer@),
{
    let value: serde_json::Value = serde_json::from_str(document).ok()?;
    value.pointer(pointer)?.as_array().map(|a| a.len())
}

/// The `Display` of `serde_json::Value`, empty where the document is not JSON. The result is
/// [`displayed`] of the document.
#[verifier::external_body]
pub(crate) fn display(document: &str) -> (r: String)
    ensures
        r@ == displayed(document@),
{
    serde_json::from_str::<serde_json::Value>(document).map(|v| v.to_string()).unwrap_or_default()
}

/// A character inside a JSON string: quotes, backslashes and control characters are escaped.
pub open spec fn escaped(c: char) -> Seq<char> {
    let u = c as u32;
    if c == '"' {
        seq!['\\', '"']
    } else if c == '\\' {
        seq!['\\', '\\']
    } else if u == 0x8 {
        seq!['\\', 'b']
    } else if u == 0x9 {
        seq!['\\', 't']
    } else if u == 0xa {
        seq!['\\', 'n']
    } else if u == 0xc {
        seq!['\\', 'f']
    } else if u == 0xd {
        seq!['\\', 'r']
    } else if u < 0x20 {
        seq!['\\', 'u', '0', '0', text::hex_digit(u as int / 16), text::hex_digit(u as int % 16)]
    } else {
        seq![c]
    }
}

/// The characters of `s` inside a JSON string.
pub open spec fn escaped_all(s: Seq<char>) -> Seq<char>
    decreases s.len(),
{
    if s.len() == 0 {
        Seq::empty()
    } else {
        escaped_all(s.drop_last()) + escaped(s.last())
    }
}

/// `s` as a JSON string.
pub open spec fn quoted(s: Seq<char>) -> Seq<char> {
    seq!['"'] + escaped_all(s) + seq!['"']
}

/// `serde_json::to_string` on a string, which never fails: the string in quotes, with quotes,
/// backslashes and the control characters below U+0020 escaped, the latter by their short escapes or
/// by four hexadecimal digits in lower case.
#[verifier::external_body]
pub(crate) fn quote(s: &str) -> (r: String)
    ensures
        r@ == quoted(s@),
{
    serde_json::to_string(s).unwrap_or_default()
}

} // verus!
