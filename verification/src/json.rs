//! Text as JSON.

use vstd::prelude::*;
use vstd::string::*;

use crate::hexed::hex_letter;

verus! {

/// A character inside a JSON string: the quote, the backslash and the ASCII controls are escaped,
/// and every other character stands for itself.
pub open spec fn json_char(c: char) -> Seq<char> {
    let u = c as u32;
    if c == '"' {
        seq!['\\', '"']
    } else if c == '\\' {
        seq!['\\', '\\']
    } else if u == 8 {
        seq!['\\', 'b']
    } else if u == 9 {
        seq!['\\', 't']
    } else if u == 10 {
        seq!['\\', 'n']
    } else if u == 12 {
        seq!['\\', 'f']
    } else if u == 13 {
        seq!['\\', 'r']
    } else if u < 32 {
        seq!['\\', 'u', '0', '0', hex_letter(u as int / 16), hex_letter(u as int % 16)]
    } else {
        seq![c]
    }
}

/// A text inside a JSON string.
pub open spec fn json_inside(text: Seq<char>) -> Seq<char>
    decreases text.len(),
{
    if text.len() == 0 {
        seq![]
    } else {
        json_inside(text.drop_last()) + json_char(text.last())
    }
}

/// A text as a JSON string.
pub open spec fn json_string(text: Seq<char>) -> Seq<char> {
    seq!['"'] + json_inside(text) + seq!['"']
}

/// A JSON object of one member, whose value is a string.
pub open spec fn json_member(name: Seq<char>, value: Seq<char>) -> Seq<char> {
    seq!['{'] + json_string(name) + seq![':'] + json_string(value) + seq!['}']
}

/// `serde_json::to_string` of a map of one entry from text to text: the object written compactly,
/// with the shortest escapes JSON has. Writing such a map to a string does not fail.
#[verifier::external_body]
pub(crate) fn json_object(name: &str, value: &str) -> (text: String)
    ensures
        text@ == json_member(name@, value@),
{
    serde_json::to_string(&std::collections::BTreeMap::from([(name, value)])).expect(
        "a map of text to text is always JSON",
    )
}

} // verus!
