//! JSON string literals, as `serde_json` writes them.

use vstd::prelude::*;

verus! {

/// A lowercase hexadecimal digit.
pub open spec fn hex_digit(v: int) -> char {
    if v < 10 {
        (v + 48) as char
    } else {
        (v - 10 + 97) as char
    }
}

/// How `serde_json` writes one character inside a string literal: a quotation mark and a
/// backslash are escaped with a backslash; backspace, tab, line feed, form feed and
/// carriage return by their short escapes; every other control character below U+0020 as
/// `\u00` and two lowercase hex digits; any other character as itself.
pub open spec fn escaped(c: char) -> Seq<char> {
    if c == '"' {
        seq!['\\', '"']
    } else if c == '\\' {
        seq!['\\', '\\']
    } else if c == '\u{08}' {
        seq!['\\', 'b']
    } else if c == '\t' {
        seq!['\\', 't']
    } else if c == '\n' {
        seq!['\\', 'n']
    } else if c == '\u{0C}' {
        seq!['\\', 'f']
    } else if c == '\r' {
        seq!['\\', 'r']
    } else if (c as int) < 32 {
        seq!['\\', 'u', '0', '0', hex_digit((c as int) / 16), hex_digit((c as int) % 16)]
    } else {
        seq![c]
    }
}

/// The escaped characters of `s`, one after the other.
pub open spec fn escaped_all(s: Seq<char>) -> Seq<char>
    decreases s.len(),
{
    if s.len() == 0 {
        seq![]
    } else {
        escaped_all(s.drop_last()) + escaped(s.last())
    }
}

/// The JSON string literal of `s`: its escaped characters between quotation marks.
pub open spec fn quoted(s: Seq<char>) -> Seq<char> {
    seq!['"'] + escaped_all(s) + seq!['"']
}

/// Writes a text as a JSON string literal with `serde_json::to_string`, which cannot fail
/// on a string (its error arm is never taken). Claimed: the literal is `quoted`, the
/// escaping that `serde_json`'s escape table (`ser.rs`, `ESCAPE` and `write_char_escape`)
/// performs.
#[verifier::external_body]
pub(crate) fn json_string(s: &str) -> (r: String)
    ensures
        r@ == quoted(s@),
{
    match serde_json::to_string(s) {
        Ok(t) => t,
        Err(_) => String::new(),
    }
}

/// A character that JSON writes as itself: not a control character, not a quotation
/// mark, not a backslash.
pub open spec fn is_plain(c: char) -> bool {
    (c as int) >= 32 && c != '"' && c != '\\'
}

/// Plain characters are written as themselves.
proof fn lemma_plain_text_escapes_to_itself(s: Seq<char>)
    requires
        forall|i: int| 0 <= i < s.len() ==> is_plain(#[trigger] s[i]),
    ensures
        escaped_all(s) == s,
    decreases s.len(),
{
    if s.len() > 0 {
        let d = s.drop_last();
        assert forall|i: int| 0 <= i < d.len() implies is_plain(#[trigger] d[i]) by {
            assert(d[i] == s[i]);
        }
        lemma_plain_text_escapes_to_itself(d);
        assert(is_plain(s[s.len() - 1]));
        assert(escaped(s.last()) =~= seq![s.last()]);
        assert(escaped_all(s) =~= s);
    } else {
        assert(escaped_all(s) =~= s);
    }
}

/// A text of plain characters is quoted as itself between quotation marks.
pub proof fn lemma_plain_text_is_quoted_as_is(s: Seq<char>)
    requires
        forall|i: int| 0 <= i < s.len() ==> is_plain(#[trigger] s[i]),
    ensures
        quoted(s) == seq!['"'] + s + seq!['"'],
{
    lemma_plain_text_escapes_to_itself(s);
}

} // verus!
