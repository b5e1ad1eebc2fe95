//! JSON text of strings and numbers, written by `serde_json`.

use crate::token::hex_digit;
use vstd::prelude::*;

verus! {

/// What one character of a string becomes inside a JSON string literal:
/// the quotation mark and the reverse solidus get a reverse solidus in
/// front, a control character below U+0020 becomes its short escape or
/// `\u00` and two lower-case hexadecimal digits, and any other character
/// stays as it is.
pub open spec fn json_escape(c: char) -> Seq<char> {
    if c == '"' {
        seq!['\\', '"']
    } else if c == '\\' {
        seq!['\\', '\\']
    } else if c == '\u{8}' {
        seq!['\\', 'b']
    } else if c == '\t' {
        seq!['\\', 't']
    } else if c == '\n' {
        seq!['\\', 'n']
    } else if c == '\u{c}' {
        seq!['\\', 'f']
    } else if c == '\r' {
        seq!['\\', 'r']
    } else if (c as u32) < 0x20 {
        seq!['\\', 'u', '0', '0', hex_digit(c as u32 as int / 16), hex_digit(c as u32 as int % 16)]
    } else {
        seq![c]
    }
}

/// The characters of `s`, each escaped for a JSON string literal.
pub open spec fn json_escaped(s: Seq<char>) -> Seq<char>
    decreases s.len(),
{
    if s.len() == 0 {
        Seq::empty()
    } else {
        json_escaped(s.drop_last()) + json_escape(s.last())
    }
}

/// The JSON string literal of `s`: its escaped characters between
/// quotation marks.
pub open spec fn json_string(s: Seq<char>) -> Seq<char> {
    seq!['"'] + json_escaped(s) + seq!['"']
}

/// Whether `c` stands for itself inside a JSON string literal.
pub open spec fn is_plain(c: char) -> bool {
    c != '"' && c != '\\' && (c as u32) >= 0x20
}

/// A text of plain characters is escaped to itself.
pub proof fn lemma_plain_text_stays(s: Seq<char>)
    requires
        forall|i: int| 0 <= i < s.len() ==> is_plain(#[trigger] s[i]),
    ensures
        json_escaped(s) == s,
        json_string(s) == seq!['"'] + s + seq!['"'],
    decreases s.len(),
{
    if s.len() > 0 {
        lemma_plain_text_stays(s.drop_last());
    }
}

/// The decimal digits of `n`, without sign or leading zero.
pub open spec fn decimal(n: nat) -> Seq<char>
    decreases n,
{
    if n < 10 {
        seq![hex_digit(n as int)]
    } else {
        decimal(n / 10).push(hex_digit((n % 10) as int))
    }
}

/// The JSON string literal of `text`.
///
/// Calls `serde_json::to_string` on a `str`. The serializer writes a
/// quotation mark, then the string with each `"`, `\` and control character
/// below U+0020 replaced by its escape sequence and every other byte copied,
/// then a quotation mark. It writes into memory and cannot fail on a `str`.
#[verifier::external_body]
pub(crate) fn quote(text: &str) -> (literal: String)
    ensures
        literal@ == json_string(text@),
{
    serde_json::to_string(text).unwrap_or_default()
}

/// The JSON number of `n`.
///
/// Calls `serde_json::to_string` on a `u32`. The serializer writes the
/// decimal digits of the number. It writes into memory and cannot fail on
/// an integer.
#[verifier::external_body]
pub(crate) fn number(n: u32) -> (digits: String)
    ensures
        digits@ == decimal(n as nat),
{
    serde_json::to_string(&n).unwrap_or_default()
}

} // verus!
