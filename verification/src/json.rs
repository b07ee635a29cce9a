//! The JSON text of a reply, as `serde_json` renders it.

use serde_json::{Map as JsonMap, Value};
use vstd::prelude::*;

verus! {

/// A hexadecimal digit, in lower case.
pub open spec fn hex_digit(n: nat) -> char {
    if n < 10 {
        ((48 + n) as u32) as char
    } else {
        ((87 + n) as u32) as char
    }
}

/// How a character is written in a JSON string: quotes, backslashes and control characters are
/// escaped, all others stand for themselves.
pub open spec fn json_char(c: char) -> Seq<char> {
    let code = c as nat;
    if c == '"' || c == '\\' {
        seq!['\\', c]
    } else if code == 8 {
        seq!['\\', 'b']
    } else if code == 9 {
        seq!['\\', 't']
    } else if code == 10 {
        seq!['\\', 'n']
    } else if code == 12 {
        seq!['\\', 'f']
    } else if code == 13 {
        seq!['\\', 'r']
    } else if code < 32 {
        seq!['\\', 'u', '0', '0', hex_digit(code / 16), hex_digit(code % 16)]
    } else {
        seq![c]
    }
}

/// The characters of a text as they are written in a JSON string.
pub open spec fn json_chars(text: Seq<char>) -> Seq<char>
    decreases text.len(),
{
    if text.len() == 0 {
        Seq::empty()
    } else {
        json_chars(text.drop_last()) + json_char(text.last())
    }
}

/// A text as a JSON string.
pub open spec fn json_string(text: Seq<char>) -> Seq<char> {
    seq!['"'] + json_chars(text) + seq!['"']
}

/// A JSON object with two members that are strings, without white space.
pub open spec fn json_pair(
    first_name: Seq<char>,
    first: Seq<char>,
    second_name: Seq<char>,
    second: Seq<char>,
) -> Seq<char> {
    seq!['{'] + json_string(first_name) + seq![':'] + json_string(first) + seq![',']
        + json_string(second_name) + seq![':'] + json_string(second) + seq!['}']
}

/// `serde_json::Value` as text: an object with two members that are strings is written without
/// white space, with the escapes of [`json_char`]. Members are written in the order of their names,
/// which is why the names are asked for in that order, told apart by their first characters.
#[verifier::external_body]
pub(crate) fn pair_text(first_name: &str, first: &str, second_name: &str, second: &str) -> (text:
    String)
    requires
        first_name@.len() > 0,
        second_name@.len() > 0,
        (first_name@[0] as u32) < (second_name@[0] as u32),
    ensures
        text@ == json_pair(first_name@, first@, second_name@, second@),
{
    let mut members = JsonMap::new();
    members.insert(first_name.to_string(), Value::String(first.to_string()));
    members.insert(second_name.to_string(), Value::String(second.to_string()));
    Value::Object(members).to_string()
}

} // verus!
