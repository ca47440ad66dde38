//! Escaping of CSS text for embedding in a double-quoted string literal of the
//! generated module, and the inverse that a reader of that literal applies.

use vstd::prelude::*;

verus! {

/// The lower-case hexadecimal digit for `n`, for `0 <= n < 16`.
pub open spec fn hex_digit(n: int) -> char {
    seq!['0', '1', '2', '3', '4', '5', '6', '7', '8', '9', 'a', 'b', 'c', 'd', 'e', 'f'][n]
}

/// The value of the hexadecimal digit `c`, or 0 for any other character.
pub open spec fn hex_value(c: char) -> int {
    if '0' <= c <= '9' {
        c as int - '0' as int
    } else if 'a' <= c <= 'f' {
        c as int - 'a' as int + 10
    } else if 'A' <= c <= 'F' {
        c as int - 'A' as int + 10
    } else {
        0
    }
}

/// How one character is written inside a JSON string: the quote and the
/// backslash get a backslash in front, the control characters below U+0020
/// their short form or `\u00XX`, and every other character stands for itself.
pub open spec fn escape_char(c: char) -> Seq<char> {
    if c == '"' {
        seq!['\\', '"']
    } else if c == '\\' {
        seq!['\\', '\\']
    } else if c == '\u{08}' {
        seq!['\\', 'b']
    } else if c == '\t' {
        seq!['\\', 't']
    } else if c == '\n' {
        seq!['\\', 'n']
    } else if c == '\u{0c}' {
        seq!['\\', 'f']
    } else if c == '\r' {
        seq!['\\', 'r']
    } else if (c as int) < 0x20 {
        seq!['\\', 'u', '0', '0', hex_digit(c as int / 16), hex_digit(c as int % 16)]
    } else {
        seq![c]
    }
}

/// The escaped form of a text: the escaped forms of its characters, in order.
pub open spec fn escape_text(s: Seq<char>) -> Seq<char>
    decreases s.len(),
{
    if s.len() == 0 {
        Seq::empty()
    } else {
        escape_char(s[0]) + escape_text(s.skip(1))
    }
}

/// A text as a JSON string: its escaped form between two quotes.
pub open spec fn json_string(s: Seq<char>) -> Seq<char> {
    seq!['"'] + escape_text(s) + seq!['"']
}

/// The character that a backslash followed by `c` stands for.
pub open spec fn unescape_short(c: char) -> char {
    if c == 'b' {
        '\u{08}'
    } else if c == 't' {
        '\t'
    } else if c == 'n' {
        '\n'
    } else if c == 'f' {
        '\u{0c}'
    } else if c == 'r' {
        '\r'
    } else {
        c
    }
}

/// The text that an escaped text stands for: what a reader of the string
/// literal gets back.
pub open spec fn unescape_text(s: Seq<char>) -> Seq<char>
    decreases s.len(),
{
    if s.len() == 0 {
        Seq::empty()
    } else if s[0] != '\\' {
        seq![s[0]] + unescape_text(s.skip(1))
    } else if s.len() >= 6 && s[1] == 'u' {
        let code = 4096 * hex_value(s[2]) + 256 * hex_value(s[3]) + 16 * hex_value(s[4])
            + hex_value(s[5]);
        seq![code as char] + unescape_text(s.skip(6))
    } else if s.len() >= 2 {
        seq![unescape_short(s[1])] + unescape_text(s.skip(2))
    } else {
        Seq::empty()
    }
}

/// `serde_json::to_string` on a string slice: the JSON string for `s`, with
/// the quotes around it. Serialising a string slice into memory cannot fail.
#[verifier::external_body]
fn to_json_string(s: &str) -> (r: String)
    ensures
        r@ == json_string(s@),
{
    serde_json::to_string(s).unwrap()
}

/// Escapes `s` so that it can stand between the double quotes of a string
/// literal.
pub fn json_escape(s: &str) -> (r: String)
    ensures
        r@ == escape_text(s@),
{
    let quoted = to_json_string(s);
    let n: usize = quoted.as_str().unicode_len();
    assert(quoted@.len() == escape_text(s@).len() + 2);
    assert(quoted@.subrange(1, n - 1) =~= escape_text(s@));
    quoted.as_str().substring_char(1, n - 1).to_owned()
}

/// The escaped form of a text put together from two parts is the escaped
/// forms of the parts put together.
pub proof fn lemma_escape_concat(a: Seq<char>, b: Seq<char>)
    ensures
        escape_text(a + b) == escape_text(a) + escape_text(b),
    decreases a.len(),
{
    if a.len() == 0 {
        assert(a + b =~= b);
        assert(escape_text(a) + escape_text(b) =~= escape_text(b));
    } else {
        lemma_escape_concat(a.skip(1), b);
        assert((a + b).skip(1) =~= a.skip(1) + b);
        assert((a + b)[0] == a[0]);
        assert(escape_char(a[0]) + (escape_text(a.skip(1)) + escape_text(b)) =~= (escape_char(a[0])
            + escape_text(a.skip(1))) + escape_text(b));
    }
}

/// Reading back one escaped character followed by any escaped text gives the
/// character followed by what the rest reads back as.
proof fn lemma_unescape_char(c: char, rest: Seq<char>)
    ensures
        unescape_text(escape_char(c) + rest) == seq![c] + unescape_text(rest),
{
    let e = escape_char(c);
    let s = e + rest;
    if c == '"' || c == '\\' || c == '\u{08}' || c == '\t' || c == '\n' || c == '\u{0c}' || c
        == '\r' {
        assert(s[0] == '\\');
        assert(s[1] == e[1]);
        assert(s[1] != 'u');
        assert(s.skip(2) =~= rest);
    } else if (c as int) < 0x20 {
        let hi = c as int / 16;
        let lo = c as int % 16;
        assert(s[0] == '\\' && s[1] == 'u' && s[2] == '0' && s[3] == '0');
        assert(s[4] == hex_digit(hi) && s[5] == hex_digit(lo));
        assert(0 <= hi < 2 && 0 <= lo < 16);
        assert(hex_value(hex_digit(hi)) == hi);
        assert(hex_value(hex_digit(lo)) == lo);
        assert(16 * hi + lo == c as int);
        assert(s.skip(6) =~= rest);
    } else {
        assert(s[0] == c);
        assert(s.skip(1) =~= rest);
    }
}

/// Escaping a text and reading the result back gives the text again,
/// whatever quotes, backslashes, line breaks and control characters it holds.
pub proof fn lemma_unescape_escape(s: Seq<char>)
    ensures
        unescape_text(escape_text(s)) == s,
    decreases s.len(),
{
    if s.len() == 0 {
        assert(s =~= Seq::empty());
    } else {
        lemma_unescape_escape(s.skip(1));
        lemma_unescape_char(s[0], escape_text(s.skip(1)));
        assert(seq![s[0]] + s.skip(1) =~= s);
    }
}

} // verus!
