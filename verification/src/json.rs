//! JSON string literals, as `serde_json` writes them.
use vstd::prelude::*;

verus! {

/// A hex digit as serde_json writes it (lowercase).
pub open spec fn json_hex_digit(d: int) -> char {
    if d < 10 {
        (48 + d) as char
    } else {
        (87 + d) as char
    }
}

/// How serde_json writes one char inside a string literal: `"` and `\`
/// after a backslash, backspace, tab, line feed, form feed and carriage
/// return as their short escapes, other control chars below U+0020 as
/// `\u00` and two hex digits, every other char as it is.
pub open spec fn json_escape_char(c: char) -> Seq<char> {
    let v = c as u32;
    if c == '"' {
        seq!['\\', '"']
    } else if c == '\\' {
        seq!['\\', '\\']
    } else if v == 0x08 {
        seq!['\\', 'b']
    } else if v == 0x09 {
        seq!['\\', 't']
    } else if v == 0x0A {
        seq!['\\', 'n']
    } else if v == 0x0C {
        seq!['\\', 'f']
    } else if v == 0x0D {
        seq!['\\', 'r']
    } else if v < 0x20 {
        seq!['\\', 'u', '0', '0', json_hex_digit(v as int / 16), json_hex_digit(v as int % 16)]
    } else {
        seq![c]
    }
}

/// The chars of a text escaped one by one.
pub open spec fn json_escaped(s: Seq<char>) -> Seq<char>
    decreases s.len(),
{
    if s.len() == 0 {
        Seq::empty()
    } else {
        json_escaped(s.drop_last()) + json_escape_char(s.last())
    }
}

/// The JSON string literal of a text: the escaped text between double
/// quotes.
pub open spec fn json_literal(s: Seq<char>) -> Seq<char> {
    seq!['"'] + json_escaped(s) + seq!['"']
}

/// Calls `serde_json::to_string` on a string slice. The contract claims what
/// serde_json's string serializer does: it does not fail on a string, and
/// writes the literal as `json_literal` states.
#[verifier::external_body]
fn to_json_string(value: &str) -> (r: Option<String>)
    ensures
        r is Some,
        r matches Some(t) ==> t@ == json_literal(value@),
{
    serde_json::to_string(value).ok()
}

/// The JSON literal of a text.
pub open spec fn quoted(s: Seq<char>) -> Seq<char> {
    json_literal(s)
}

/// The JSON literal of a text (written where the renderer would write
/// nothing for a text it could not serialize, which does not happen).
pub open spec fn quoted_or_empty(s: Seq<char>) -> Seq<char> {
    json_literal(s)
}

/// Appends the JSON literal of `value` (or `""` if it cannot be written).
pub fn push_quoted(out: &mut String, value: &str)
    ensures
        final(out)@ == old(out)@ + quoted(value@),
{
    match to_json_string(value) {
        Some(q) => out.append(q.as_str()),
        None => out.append("\"\""),
    }
}

/// Appends the JSON literal of `value` (or nothing if it cannot be written).
pub fn push_quoted_or_empty(out: &mut String, value: &str)
    ensures
        final(out)@ == old(out)@ + quoted_or_empty(value@),
{
    match to_json_string(value) {
        Some(q) => out.append(q.as_str()),
        None => {},
    }
}

/// The JSON literal of a text as an owned string.
pub fn quote(value: &str) -> (r: String)
    ensures
        r@ == quoted(value@),
{
    let mut r = String::new();
    push_quoted(&mut r, value);
    assert(r@ =~= quoted(value@));
    r
}

} // verus!
