//! What the code generator makes of the lengths in a text: every string that
//! stands for a length given in `rpx` becomes a call of the unit conversion.

use crate::css_to_code::{main_code, marked_text};
use crate::escape::{escape_char, escape_text, lemma_escape_concat};
use crate::expand::{
    expand_from, expand_text, first_close, marker_at, marker_code, matches_at, Found, Marker,
    IMPORT_CLOSE, IMPORT_OPEN, RPX_CLOSE, RPX_OPEN,
};
use crate::markers::{HOST, PREFIX, RPX_FUNC};
use crate::token::rpx_marker;
use vstd::prelude::*;

verus! {

/// Whether `c` can stand in a number as it is written.
pub open spec fn is_number_char(c: char) -> bool {
    ('0' <= c <= '9') || c == '.' || c == '-' || c == '+' || c == 'e' || c == 'E'
}

/// Whether `n` is a number as it is written: at least one character, each a
/// digit, a sign, a point or the letter of an exponent.
pub open spec fn is_number(n: Seq<char>) -> bool {
    n.len() > 0 && forall|i: int| 0 <= i < n.len() ==> is_number_char(#[trigger] n[i])
}

/// Whether `c` is a character that escaping leaves alone and that begins
/// neither a length marker nor an import marker.
pub open spec fn is_quiet_char(c: char) -> bool {
    c != '"' && c != '\\' && c != '@' && (c as int) >= 0x20
}

/// Whether a text holds nowhere two underscores in a row.
pub open spec fn has_no_double_underscore(s: Seq<char>) -> bool {
    forall|i: int| 0 <= i < s.len() - 1 ==> !(#[trigger] s[i] == '_' && s[i + 1] == '_')
}

/// Whether a text holds quiet characters only and nowhere two underscores in
/// a row: nothing in it is a marker or a part of one.
pub open spec fn is_quiet(s: Seq<char>) -> bool {
    &&& forall|i: int| 0 <= i < s.len() ==> is_quiet_char(#[trigger] s[i])
    &&& has_no_double_underscore(s)
}

/// A stretch of text with the length that follows it.
pub struct Piece {
    pub text: Seq<char>,
    pub number: Seq<char>,
}

/// The string that stands for the length `n`, as the style sheet holds it:
/// the marker between double quotes.
pub open spec fn length_string(n: Seq<char>) -> Seq<char> {
    "\""@ + rpx_marker(n) + "\""@
}

/// The string that stands for the length `n`, escaped.
pub open spec fn escaped_length(n: Seq<char>) -> Seq<char> {
    RPX_OPEN@ + n + RPX_CLOSE@
}

/// The pieces one after the other, each with the string that stands for its
/// length, and `tail` behind them.
pub open spec fn with_lengths(parts: Seq<Piece>, tail: Seq<char>) -> Seq<char>
    decreases parts.len(),
{
    if parts.len() == 0 {
        tail
    } else {
        parts[0].text + length_string(parts[0].number) + with_lengths(parts.skip(1), tail)
    }
}

/// `with_lengths`, escaped.
pub open spec fn with_escaped(parts: Seq<Piece>, tail: Seq<char>) -> Seq<char>
    decreases parts.len(),
{
    if parts.len() == 0 {
        tail
    } else {
        parts[0].text + escaped_length(parts[0].number) + with_escaped(parts.skip(1), tail)
    }
}

/// The pieces one after the other, each with the call of the unit conversion
/// for its length as a break in the string concatenation, and `tail` behind
/// them.
pub open spec fn with_calls(parts: Seq<Piece>, tail: Seq<char>) -> Seq<char>
    decreases parts.len(),
{
    if parts.len() == 0 {
        tail
    } else {
        parts[0].text + marker_code(Marker::Rpx, parts[0].number) + with_calls(parts.skip(1), tail)
    }
}

/// Whether every stretch of text is quiet and every length a number.
pub open spec fn pieces_ok(parts: Seq<Piece>, tail: Seq<char>) -> bool {
    &&& is_quiet(tail)
    &&& forall|i: int|
        0 <= i < parts.len() ==> is_quiet((#[trigger] parts[i]).text) && is_number(parts[i].number)
}

/// A marker found `by` characters further on.
pub open spec fn moved(found: Option<Found>, by: int) -> Option<Found> {
    match found {
        Some(f) => Some(Found { inner: f.inner, end: f.end + by }),
        None => None,
    }
}

/// A text without a character that escaping changes is its own escaped form.
proof fn lemma_escape_plain(s: Seq<char>)
    requires
        forall|i: int| 0 <= i < s.len() ==> escape_char(#[trigger] s[i]) == seq![s[i]],
    ensures
        escape_text(s) == s,
    decreases s.len(),
{
    if s.len() > 0 {
        let rest = s.skip(1);
        assert forall|i: int| 0 <= i < rest.len() implies escape_char(#[trigger] rest[i])
            == seq![rest[i]] by {
            assert(rest[i] == s[i + 1]);
        }
        lemma_escape_plain(rest);
        assert(seq![s[0]] + rest =~= s);
    } else {
        assert(escape_text(s) =~= s);
    }
}

/// Where no marker of kind `m` starts between `i` and `n`, the expansion
/// from `i` is the text up to `n` and then the expansion from `n`.
proof fn lemma_expand_skip(m: Marker, s: Seq<char>, i: int, n: int)
    requires
        0 <= i <= n <= s.len(),
        forall|j: int| i <= j < n ==> marker_at(m, s, j) is None,
    ensures
        expand_from(m, s, i) == s.subrange(i, n) + expand_from(m, s, n),
    decreases n - i,
{
    if i < n {
        lemma_expand_skip(m, s, i + 1, n);
        assert(seq![s[i]] + (s.subrange(i + 1, n) + expand_from(m, s, n)) =~= s.subrange(i, n)
            + expand_from(m, s, n));
    } else {
        assert(s.subrange(i, n) + expand_from(m, s, n) =~= expand_from(m, s, n));
    }
}

/// Where no `)` stands between `from` and `at` and one stands at `at`, the
/// first `)` behind `from` is the one at `at`.
proof fn lemma_first_close(s: Seq<char>, from: int, at: int)
    requires
        0 <= from <= at < s.len(),
        forall|k: int| from <= k < at ==> s[k] != ')',
        s[at] == ')',
    ensures
        first_close(s, from) == at,
    decreases at - from,
{
    if from < at {
        lemma_first_close(s, from + 1, at);
    }
}

/// Whether a pattern stands at a place in `b` does not depend on what text
/// stands in front of `b`.
proof fn lemma_matches_shift(a: Seq<char>, b: Seq<char>, j: int, pat: Seq<char>)
    requires
        0 <= j,
    ensures
        matches_at(a + b, a.len() + j, pat) == matches_at(b, j, pat),
{
    if j + pat.len() <= b.len() {
        assert((a + b).subrange(a.len() + j, a.len() + j + pat.len()) =~= b.subrange(
            j,
            j + pat.len(),
        ));
    }
}

/// The first `)` behind a place in `b` does not depend on what text stands
/// in front of `b`.
proof fn lemma_first_close_shift(a: Seq<char>, b: Seq<char>, p: int)
    requires
        0 <= p,
    ensures
        first_close(a + b, a.len() + p) == a.len() + first_close(b, p),
    decreases b.len() - p,
{
    if p < b.len() {
        assert((a + b)[a.len() + p] == b[p]);
        if b[p] != ')' {
            lemma_first_close_shift(a, b, p + 1);
        }
    }
}

/// The marker at a place in `b` does not depend on what text stands in front
/// of `b`.
proof fn lemma_marker_shift(m: Marker, a: Seq<char>, b: Seq<char>, j: int)
    requires
        0 <= j,
    ensures
        marker_at(m, a + b, a.len() + j) == moved(marker_at(m, b, j), a.len() as int),
{
    let s = a + b;
    let by = a.len() as int;
    match m {
        Marker::Prefix => {
            lemma_matches_shift(a, b, j, PREFIX@);
        },
        Marker::Host => {
            lemma_matches_shift(a, b, j, HOST@);
        },
        Marker::Rpx => {
            let from = j + RPX_OPEN@.len();
            let close = first_close(b, from);
            lemma_matches_shift(a, b, j, RPX_OPEN@);
            lemma_first_close_shift(a, b, from);
            if from < close {
                lemma_matches_shift(a, b, close, RPX_CLOSE@);
                if matches_at(b, close, RPX_CLOSE@) {
                    assert(s.subrange(by + from, by + close) =~= b.subrange(from, close));
                }
            }
        },
        Marker::Import => {
            let from = j + IMPORT_OPEN@.len();
            let close = first_close(b, from);
            lemma_matches_shift(a, b, j, IMPORT_OPEN@);
            lemma_first_close_shift(a, b, from);
            if from < close - 2 {
                lemma_matches_shift(a, b, close - 2, IMPORT_CLOSE@);
                if matches_at(b, close - 2, IMPORT_CLOSE@) {
                    assert(s.subrange(by + from, by + close - 2) =~= b.subrange(from, close - 2));
                }
            }
        },
    }
}

/// The expansion of `b` from a place on does not depend on what text stands
/// in front of `b`.
proof fn lemma_expand_shift(m: Marker, a: Seq<char>, b: Seq<char>, j: int)
    requires
        0 <= j,
    ensures
        expand_from(m, a + b, a.len() + j) == expand_from(m, b, j),
    decreases b.len() - j,
{
    if j < b.len() {
        lemma_marker_shift(m, a, b, j);
        assert((a + b)[a.len() + j] == b[j]);
        match marker_at(m, b, j) {
            Some(found) => {
                if found.end > j {
                    lemma_expand_shift(m, a, b, found.end);
                } else {
                    lemma_expand_shift(m, a, b, j + 1);
                }
            },
            None => {
                lemma_expand_shift(m, a, b, j + 1);
            },
        }
    }
}

/// The characters of the escaped string that stands for a length.
proof fn lemma_escaped_length(n: Seq<char>)
    requires
        is_number(n),
    ensures
        ({
            let e = escaped_length(n);
            let len = n.len() as int;
            &&& e.len() == len + 13
            &&& e.subrange(0, 10) == RPX_OPEN@
            &&& e.subrange(10, 10 + len) == n
            &&& e.subrange(10 + len, 13 + len) == RPX_CLOSE@
            &&& e[0] == '\\' && e[1] == '"' && e[2] == '_' && e[3] == '_' && e[4] == 'R'
            &&& e[5] == 'P' && e[6] == 'X' && e[7] == '_' && e[8] == '_' && e[9] == '('
            &&& forall|o: int| 10 <= o < 10 + len ==> is_number_char(#[trigger] e[o])
            &&& e[10 + len] == ')' && e[11 + len] == '\\' && e[12 + len] == '"'
        }),
{
    reveal_strlit("\\\"__RPX__(");
    reveal_strlit(")\\\"");
    let e = escaped_length(n);
    let len = n.len() as int;
    assert(e.subrange(0, 10) =~= RPX_OPEN@);
    assert(e.subrange(10, 10 + len) =~= n);
    assert(e.subrange(10 + len, 13 + len) =~= RPX_CLOSE@);
    assert forall|o: int| 10 <= o < 10 + len implies is_number_char(#[trigger] e[o]) by {
        assert(e[o] == n[o - 10]);
    }
}

/// Escaping the string that stands for a length escapes its two quotes and
/// nothing else.
proof fn lemma_escape_length(n: Seq<char>)
    requires
        is_number(n),
    ensures
        escape_text(length_string(n)) == escaped_length(n),
{
    reveal_strlit("\"");
    reveal_strlit("__RPX__");
    reveal_strlit("(");
    reveal_strlit(")");
    reveal_strlit("\\\"__RPX__(");
    reveal_strlit(")\\\"");
    let quote = "\""@;
    let body = rpx_marker(n);
    let len = n.len() as int;
    assert(quote =~= seq!['"']);
    assert(quote.skip(1) =~= Seq::<char>::empty());
    assert(escape_text(quote.skip(1)) =~= Seq::<char>::empty());
    assert(escape_char(quote[0]) =~= seq!['\\', '"']);
    assert(escape_text(quote) =~= seq!['\\', '"']);
    assert forall|i: int| 0 <= i < body.len() implies escape_char(#[trigger] body[i])
        == seq![body[i]] by {
        if 8 <= i < 8 + len {
            assert(body[i] == n[i - 8]);
            assert(is_number_char(n[i - 8]));
        }
    }
    lemma_escape_plain(body);
    lemma_escape_concat(quote + body, quote);
    lemma_escape_concat(quote, body);
    assert(escape_text(quote) + body + escape_text(quote) =~= escaped_length(n));
}

/// The pieces behind the first are in order where all are.
proof fn lemma_rest_ok(parts: Seq<Piece>, tail: Seq<char>)
    requires
        pieces_ok(parts, tail),
        parts.len() > 0,
    ensures
        pieces_ok(parts.skip(1), tail),
        is_quiet(parts[0].text),
        is_number(parts[0].number),
{
    let rest = parts.skip(1);
    assert forall|i: int| 0 <= i < rest.len() implies is_quiet((#[trigger] rest[i]).text)
        && is_number(rest[i].number) by {
        assert(rest[i] == parts[i + 1]);
    }
}

/// Escaping a text with lengths escapes the strings that stand for the
/// lengths and leaves the quiet stretches as they are.
proof fn lemma_escape_pieces(parts: Seq<Piece>, tail: Seq<char>)
    requires
        pieces_ok(parts, tail),
    ensures
        escape_text(with_lengths(parts, tail)) == with_escaped(parts, tail),
    decreases parts.len(),
{
    if parts.len() == 0 {
        lemma_escape_plain(tail);
    } else {
        lemma_rest_ok(parts, tail);
        let text = parts[0].text;
        let n = parts[0].number;
        let rest = with_lengths(parts.skip(1), tail);
        lemma_escape_pieces(parts.skip(1), tail);
        lemma_escape_plain(text);
        lemma_escape_length(n);
        lemma_escape_concat(text + length_string(n), rest);
        lemma_escape_concat(text, length_string(n));
    }
}

/// The passes for the class prefix and for the host leave a text with
/// escaped lengths as it is.
proof fn lemma_literal_pass(m: Marker, parts: Seq<Piece>, tail: Seq<char>)
    requires
        m == Marker::Prefix || m == Marker::Host,
        pieces_ok(parts, tail),
    ensures
        expand_text(m, with_escaped(parts, tail)) == with_escaped(parts, tail),
    decreases parts.len(),
{
    reveal_strlit("__PREFIX__");
    reveal_strlit("__HOST__");
    let pat = if m == Marker::Prefix {
        PREFIX@
    } else {
        HOST@
    };
    let e = with_escaped(parts, tail);
    if parts.len() == 0 {
        assert forall|j: int| 0 <= j < e.len() implies marker_at(m, e, j) is None by {
            if matches_at(e, j, pat) {
                let w = e.subrange(j, j + pat.len());
                assert(w[0] == '_' && w[1] == '_');
                assert(e[j] == '_' && e[j + 1] == '_');
            }
        }
        lemma_expand_skip(m, e, 0, e.len() as int);
        assert(e.subrange(0, e.len() as int) + expand_from(m, e, e.len() as int) =~= e);
    } else {
        lemma_rest_ok(parts, tail);
        let text = parts[0].text;
        let n = parts[0].number;
        let mark = escaped_length(n);
        let head = text + mark;
        let rest = with_escaped(parts.skip(1), tail);
        lemma_escaped_length(n);
        assert forall|j: int| 0 <= j < head.len() implies marker_at(m, e, j) is None by {
            if matches_at(e, j, pat) {
                let w = e.subrange(j, j + pat.len());
                assert(w[0] == '_' && w[1] == '_' && (w[2] == 'P' || w[2] == 'H'));
                assert(e[j] == '_' && e[j + 1] == '_' && (e[j + 2] == 'P' || e[j + 2] == 'H'));
                if j < text.len() {
                    assert(e[j] == text[j]);
                    if j + 1 < text.len() {
                        assert(e[j + 1] == text[j + 1]);
                    } else {
                        assert(e[j + 1] == mark[0]);
                    }
                } else {
                    let o = j - text.len();
                    assert(e[j] == mark[o]);
                    if o + 1 < mark.len() {
                        assert(e[j + 1] == mark[o + 1]);
                    }
                    if o + 2 < mark.len() {
                        assert(e[j + 2] == mark[o + 2]);
                    }
                    if o >= 10 && o < 10 + n.len() {
                        assert(is_number_char(mark[o]));
                    }
                }
            }
        }
        lemma_expand_skip(m, e, 0, head.len() as int);
        lemma_expand_shift(m, head, rest, 0);
        lemma_literal_pass(m, parts.skip(1), tail);
        assert(e.subrange(0, head.len() as int) =~= head);
    }
}

/// The pass for the lengths turns every escaped string that stands for a
/// length into the call of the unit conversion.
proof fn lemma_rpx_pass(parts: Seq<Piece>, tail: Seq<char>)
    requires
        pieces_ok(parts, tail),
    ensures
        expand_text(Marker::Rpx, with_escaped(parts, tail)) == with_calls(parts, tail),
    decreases parts.len(),
{
    reveal_strlit("\\\"__RPX__(");
    reveal_strlit(")\\\"");
    let m = Marker::Rpx;
    let e = with_escaped(parts, tail);
    if parts.len() == 0 {
        assert forall|j: int| 0 <= j < e.len() implies marker_at(m, e, j) is None by {
            if matches_at(e, j, RPX_OPEN@) {
                let w = e.subrange(j, j + 10);
                assert(w[0] == '\\');
                assert(e[j] == '\\');
            }
        }
        lemma_expand_skip(m, e, 0, e.len() as int);
        assert(e.subrange(0, e.len() as int) + expand_from(m, e, e.len() as int) =~= e);
    } else {
        lemma_rest_ok(parts, tail);
        let text = parts[0].text;
        let n = parts[0].number;
        let len = n.len() as int;
        let mark = escaped_length(n);
        let head = text + mark;
        let rest = with_escaped(parts.skip(1), tail);
        let tail_part = mark + rest;
        lemma_escaped_length(n);
        assert(e =~= text + tail_part);
        assert forall|j: int| 0 <= j < text.len() implies marker_at(m, e, j) is None by {
            if matches_at(e, j, RPX_OPEN@) {
                let w = e.subrange(j, j + 10);
                assert(w[0] == '\\');
                assert(e[j] == text[j]);
            }
        }
        lemma_expand_skip(m, e, 0, text.len() as int);
        assert(e.subrange(0, text.len() as int) =~= text);
        // The marker itself, seen without the text in front of it.
        assert(marker_at(m, tail_part, 0) == Some(Found { inner: n, end: 13 + len })) by {
            assert(tail_part.subrange(0, 10) =~= mark.subrange(0, 10));
            assert forall|k: int| 10 <= k < 10 + len implies tail_part[k] != ')' by {
                assert(tail_part[k] == mark[k]);
                assert(is_number_char(mark[k]));
            }
            assert(tail_part[10 + len] == mark[10 + len]);
            lemma_first_close(tail_part, 10, 10 + len);
            assert(tail_part.subrange(10 + len, 13 + len) =~= mark.subrange(10 + len, 13 + len));
            assert(tail_part.subrange(10, 10 + len) =~= mark.subrange(10, 10 + len));
        }
        lemma_expand_shift(m, text, tail_part, 0);
        lemma_expand_shift(m, mark, rest, 0);
        lemma_rpx_pass(parts.skip(1), tail);
        assert(expand_from(m, tail_part, 0) == marker_code(m, n) + expand_from(
            m,
            tail_part,
            13 + len,
        ));
        assert(text + (marker_code(m, n) + with_calls(parts.skip(1), tail)) =~= with_calls(
            parts,
            tail,
        ));
    }
}

/// A text with calls holds no `@`.
proof fn lemma_calls_hold_no_at(parts: Seq<Piece>, tail: Seq<char>)
    requires
        pieces_ok(parts, tail),
    ensures
        forall|j: int| 0 <= j < with_calls(parts, tail).len() ==> with_calls(parts, tail)[j] != '@',
    decreases parts.len(),
{
    reveal_strlit("\" , rpx(");
    reveal_strlit(") , \"px");
    let r = with_calls(parts, tail);
    if parts.len() > 0 {
        lemma_rest_ok(parts, tail);
        let text = parts[0].text;
        let n = parts[0].number;
        let call = marker_code(Marker::Rpx, n);
        let rest = with_calls(parts.skip(1), tail);
        lemma_calls_hold_no_at(parts.skip(1), tail);
        assert forall|o: int| 0 <= o < call.len() implies call[o] != '@' by {
            if 8 <= o < 8 + n.len() {
                assert(call[o] == n[o - 8]);
                assert(is_number_char(n[o - 8]));
            }
        }
        assert forall|j: int| 0 <= j < r.len() implies r[j] != '@' by {
            if j < text.len() {
                assert(r[j] == text[j]);
            } else if j < text.len() + call.len() {
                assert(r[j] == call[j - text.len()]);
            } else {
                assert(r[j] == rest[j - text.len() - call.len()]);
            }
        }
    }
}

/// A text with calls holds nowhere two underscores in a row.
proof fn lemma_calls_hold_no_marker_name(parts: Seq<Piece>, tail: Seq<char>)
    requires
        pieces_ok(parts, tail),
    ensures
        has_no_double_underscore(with_calls(parts, tail)),
    decreases parts.len(),
{
    reveal_strlit("\" , rpx(");
    reveal_strlit(") , \"px");
    let r = with_calls(parts, tail);
    if parts.len() > 0 {
        lemma_rest_ok(parts, tail);
        let text = parts[0].text;
        let n = parts[0].number;
        let call = marker_code(Marker::Rpx, n);
        let rest = with_calls(parts.skip(1), tail);
        lemma_calls_hold_no_marker_name(parts.skip(1), tail);
        assert forall|o: int| 0 <= o < call.len() implies call[o] != '_' by {
            if 8 <= o < 8 + n.len() {
                assert(call[o] == n[o - 8]);
                assert(is_number_char(n[o - 8]));
            }
        }
        assert forall|j: int| 0 <= j < r.len() - 1 implies !(#[trigger] r[j] == '_' && r[j + 1]
            == '_') by {
            let head = text.len() + call.len();
            if j + 1 < text.len() {
                assert(r[j] == text[j]);
                assert(r[j + 1] == text[j + 1]);
            } else if j < text.len() {
                assert(r[j + 1] == call[0]);
            } else if j < head {
                assert(r[j] == call[j - text.len()]);
            } else {
                assert(r[j] == rest[j - head]);
                assert(r[j + 1] == rest[j + 1 - head]);
            }
        }
    }
}

/// The pass for the imports leaves a text with calls as it is.
proof fn lemma_import_pass(parts: Seq<Piece>, tail: Seq<char>)
    requires
        pieces_ok(parts, tail),
    ensures
        expand_text(Marker::Import, with_calls(parts, tail)) == with_calls(parts, tail),
{
    reveal_strlit("@import-style (\\\"");
    let r = with_calls(parts, tail);
    lemma_calls_hold_no_at(parts, tail);
    assert forall|j: int| 0 <= j < r.len() implies marker_at(Marker::Import, r, j) is None by {
        if matches_at(r, j, IMPORT_OPEN@) {
            let w = r.subrange(j, j + 17);
            assert(w[0] == '@');
            assert(r[j] == '@');
        }
    }
    lemma_expand_skip(Marker::Import, r, 0, r.len() as int);
    assert(r.subrange(0, r.len() as int) + expand_from(Marker::Import, r, r.len() as int) =~= r);
}

/// Every length in a text ends up in the module as a call of the unit
/// conversion with the number as written, followed by `px`.
///
/// Take a text that is made of quiet stretches with, between them, any number
/// of strings that stand for lengths: each the marker `rpx_marker(n)` between
/// double quotes, as the style sheet holds it after the rewrite. The code for
/// that text has the same stretches in the same order, and in place of each
/// string a break in the concatenation that calls `rpx` with its number: the
/// two quotes go with the marker, the number is copied as it is written, and
/// `px` follows the call. The name of the marker function is nowhere in the
/// code.
pub proof fn lemma_lengths_become_calls(parts: Seq<Piece>, tail: Seq<char>)
    requires
        pieces_ok(parts, tail),
    ensures
        main_code(with_lengths(parts, tail)) == with_calls(parts, tail),
        marked_text(with_lengths(parts, tail)) == with_calls(parts, tail),
        forall|j: int| !matches_at(main_code(with_lengths(parts, tail)), j, RPX_FUNC@),
{
    reveal_strlit("__RPX__");
    let r = with_calls(parts, tail);
    lemma_calls_hold_no_marker_name(parts, tail);
    assert forall|j: int| !matches_at(r, j, RPX_FUNC@) by {
        if matches_at(r, j, RPX_FUNC@) {
            let w = r.subrange(j, j + 7);
            assert(w[0] == '_' && w[1] == '_');
            assert(r[j] == '_' && r[j + 1] == '_');
        }
    }
    lemma_escape_pieces(parts, tail);
    lemma_literal_pass(Marker::Prefix, parts, tail);
    lemma_literal_pass(Marker::Host, parts, tail);
    lemma_rpx_pass(parts, tail);
    lemma_import_pass(parts, tail);
}

/// A length alone becomes the call of the unit conversion with its number,
/// followed by `px`, whatever number it is.
pub proof fn lemma_rpx_becomes_call(n: Seq<char>)
    requires
        is_number(n),
    ensures
        main_code("\""@ + rpx_marker(n) + "\""@) == "\" , rpx("@ + n + ") , \"px"@,
        marked_text("\""@ + rpx_marker(n) + "\""@) == "\" , rpx("@ + n + ") , \"px"@,
{
    let parts = seq![Piece { text: Seq::empty(), number: n }];
    let tail = Seq::<char>::empty();
    assert(parts.skip(1) =~= Seq::<Piece>::empty());
    assert(with_lengths(parts.skip(1), tail) =~= tail);
    assert(with_calls(parts.skip(1), tail) =~= tail);
    assert(with_lengths(parts, tail) =~= length_string(n));
    assert(with_calls(parts, tail) =~= marker_code(Marker::Rpx, n));
    lemma_lengths_become_calls(parts, tail);
}

} // verus!
