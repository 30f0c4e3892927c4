use vstd::prelude::*;

use crate::text::{escape_with, escaped, push_seq_vec, string_of, EscapeStyle};

verus! {

/// `value` with `&`, `<`, `>`, `"` and `'` written as XML entities.
pub fn xml_escape(value: &str) -> (r: String)
    ensures
        r@ == escaped(EscapeStyle::Xml, value@),
{
    let v = escape_with(EscapeStyle::Xml, value);
    string_of(&v)
}

/// The text of a shell word that the shell reads back as exactly `value`.
pub open spec fn shell_quoted(value: Seq<char>) -> Seq<char> {
    seq!['\''] + escaped(EscapeStyle::Shell, value) + seq!['\'']
}

/// `value` as one single-quoted shell word: each `'` inside is written `'\''`.
pub fn shell_quote(value: &str) -> (r: String)
    ensures
        r@ == shell_quoted(value@),
{
    let mut out: Vec<char> = Vec::new();
    out.push('\'');
    let body = escape_with(EscapeStyle::Shell, value);
    push_seq_vec(&mut out, &body);
    out.push('\'');
    assert(out@ =~= shell_quoted(value@));
    string_of(&out)
}

/// The text of an AppleScript string literal whose value is `value`.
pub open spec fn applescript_quoted(value: Seq<char>) -> Seq<char> {
    seq!['"'] + escaped(EscapeStyle::AppleScript, value) + seq!['"']
}

/// `value` as an AppleScript string literal: in double quotes, with `\` and `"`
/// written after a backslash.
pub fn applescript_quote(value: &str) -> (r: String)
    ensures
        r@ == applescript_quoted(value@),
{
    let mut out: Vec<char> = Vec::new();
    out.push('"');
    let body = escape_with(EscapeStyle::AppleScript, value);
    push_seq_vec(&mut out, &body);
    out.push('"');
    assert(out@ =~= applescript_quoted(value@));
    string_of(&out)
}

} // verus!
