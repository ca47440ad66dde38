//! Expansion of the markers in escaped CSS text into pieces of the generated
//! module's string concatenation.
//!
//! A text is read from left to right. Where a marker starts, its code is
//! written and reading goes on behind the marker; elsewhere the character is
//! copied. Each of the four kinds of marker gets a pass of its own.

use crate::digest::{md5_hash, md5_hex};
use crate::markers::{HOST, PREFIX};
use crate::text::{chars_of, push_range, push_str, string_of, views};
use vstd::prelude::*;

verus! {

/// What the class prefix marker becomes.
pub const PREFIX_CODE: &'static str = "\" , prefix , \"";

/// What the host marker becomes.
pub const HOST_CODE: &'static str = "'\" , host , \"'";

/// How an escaped length marker begins, up to its number.
pub const RPX_OPEN: &'static str = "\\\"__RPX__(";

/// How an escaped length marker ends, behind its number.
pub const RPX_CLOSE: &'static str = ")\\\"";

/// How an escaped import marker begins, up to its address.
pub const IMPORT_OPEN: &'static str = "@import-style (\\\"";

/// How an escaped import marker ends, behind its address.
pub const IMPORT_CLOSE: &'static str = "\\\");";

/// The four kinds of marker.
#[derive(Clone, Copy, Debug, PartialEq, Eq, Structural)]
pub enum Marker {
    /// `__PREFIX__`
    Prefix,
    /// `__HOST__`
    Host,
    /// `\"__RPX__(` number `)\"`
    Rpx,
    /// `@import-style (\"` address `\");`
    Import,
}

/// A marker found in a text: what it wraps, and where the text goes on
/// behind it.
pub struct Found {
    pub inner: Seq<char>,
    pub end: int,
}

/// Whether `pat` stands in `s` at position `i`.
pub open spec fn matches_at(s: Seq<char>, i: int, pat: Seq<char>) -> bool {
    0 <= i && i + pat.len() <= s.len() && s.subrange(i, i + pat.len()) == pat
}

/// The position of the first `)` in `s` at or behind `from`, or the length of
/// `s` where there is none.
pub open spec fn first_close(s: Seq<char>, from: int) -> int
    decreases s.len() - from,
{
    if from < 0 || from >= s.len() {
        s.len() as int
    } else if s[from] == ')' {
        from
    } else {
        first_close(s, from + 1)
    }
}

/// The name of the function that stands for an imported style sheet, given
/// the digest of its address.
pub open spec fn import_name_for(digest: Seq<char>) -> Seq<char> {
    "I_"@ + digest
}

/// The call of the function that stands for an imported style sheet, as a
/// break in the string concatenation, given the digest of its address.
pub open spec fn import_call_for(digest: Seq<char>) -> Seq<char> {
    "\" , "@ + import_name_for(digest) + "(options) , \""@
}

/// The name of the function that stands for the style sheet imported from
/// `url`.
pub open spec fn import_name(url: Seq<char>) -> Seq<char> {
    import_name_for(md5_hex(url))
}

/// The marker of kind `m` that starts at position `i` of `s`, if there is one.
///
/// A length marker wraps the characters up to the first `)`, at least one; an
/// import marker wraps the characters up to the `\"` in front of the first
/// `)`, at least one.
pub open spec fn marker_at(m: Marker, s: Seq<char>, i: int) -> Option<Found> {
    match m {
        Marker::Prefix => if matches_at(s, i, PREFIX@) {
            Some(Found { inner: Seq::empty(), end: i + PREFIX@.len() })
        } else {
            None
        },
        Marker::Host => if matches_at(s, i, HOST@) {
            Some(Found { inner: Seq::empty(), end: i + HOST@.len() })
        } else {
            None
        },
        Marker::Rpx => {
            let from = i + RPX_OPEN@.len();
            let close = first_close(s, from);
            if matches_at(s, i, RPX_OPEN@) && from < close && matches_at(s, close, RPX_CLOSE@) {
                Some(Found { inner: s.subrange(from, close), end: close + RPX_CLOSE@.len() })
            } else {
                None
            }
        },
        Marker::Import => {
            let from = i + IMPORT_OPEN@.len();
            let close = first_close(s, from);
            if matches_at(s, i, IMPORT_OPEN@) && from < close - 2 && matches_at(
                s,
                close - 2,
                IMPORT_CLOSE@,
            ) {
                Some(
                    Found { inner: s.subrange(from, close - 2), end: close - 2 + IMPORT_CLOSE@.len() },
                )
            } else {
                None
            }
        },
    }
}

/// The code that a marker of kind `m` becomes, given what it wraps.
pub open spec fn marker_code(m: Marker, inner: Seq<char>) -> Seq<char> {
    match m {
        Marker::Prefix => PREFIX_CODE@,
        Marker::Host => HOST_CODE@,
        Marker::Rpx => "\" , rpx("@ + inner + ") , \"px"@,
        Marker::Import => import_call_for(md5_hex(inner)),
    }
}

/// The text `s` from position `i` on, with every marker of kind `m` replaced
/// by its code.
pub open spec fn expand_from(m: Marker, s: Seq<char>, i: int) -> Seq<char>
    decreases s.len() - i,
{
    if i < 0 || i >= s.len() {
        Seq::empty()
    } else {
        match marker_at(m, s, i) {
            Some(found) if found.end > i => marker_code(m, found.inner) + expand_from(
                m,
                s,
                found.end,
            ),
            _ => seq![s[i]] + expand_from(m, s, i + 1),
        }
    }
}

/// The text `s` with every marker of kind `m` replaced by its code.
pub open spec fn expand_text(m: Marker, s: Seq<char>) -> Seq<char> {
    expand_from(m, s, 0)
}

/// What the markers of kind `m` in `s` from position `i` on wrap, one entry
/// for each marker, in the order of the text.
pub open spec fn inners_from(m: Marker, s: Seq<char>, i: int) -> Seq<Seq<char>>
    decreases s.len() - i,
{
    if i < 0 || i >= s.len() {
        Seq::empty()
    } else {
        match marker_at(m, s, i) {
            Some(found) if found.end > i => seq![found.inner] + inners_from(m, s, found.end),
            _ => inners_from(m, s, i + 1),
        }
    }
}

/// What the markers of kind `m` in `s` wrap.
pub open spec fn inners(m: Marker, s: Seq<char>) -> Seq<Seq<char>> {
    inners_from(m, s, 0)
}

/// Whether `pat` stands in `s` at position `i`.
pub fn has_at(s: &Vec<char>, i: usize, pat: &Vec<char>) -> (r: bool)
    ensures
        r == matches_at(s@, i as int, pat@),
{
    if pat.len() > s.len() || i > s.len() - pat.len() {
        return false;
    }
    let mut k: usize = 0;
    while k < pat.len()
        invariant
            k <= pat.len(),
            i + pat.len() <= s.len(),
            s@.subrange(i as int, i + k) == pat@.take(k as int),
        decreases pat.len() - k,
    {
        if s[i + k] != pat[k] {
            assert(s@.subrange(i as int, i + pat.len())[k as int] != pat@[k as int]);
            return false;
        }
        assert(s@.subrange(i as int, i + k + 1) =~= s@.subrange(i as int, i + k).push(
            s@[i + k],
        ));
        assert(pat@.take(k + 1) =~= pat@.take(k as int).push(pat@[k as int]));
        k += 1;
    }
    assert(pat@.take(pat.len() as int) =~= pat@);
    true
}

/// The position of the first `)` in `s` at or behind `from`, or the length of
/// `s` where there is none.
pub fn find_close(s: &Vec<char>, from: usize) -> (r: usize)
    ensures
        r == first_close(s@, from as int),
        from <= s.len() ==> from <= r <= s.len(),
{
    let mut k: usize = from;
    while k < s.len()
        invariant
            from <= k,
            first_close(s@, k as int) == first_close(s@, from as int),
        decreases s.len() - k,
    {
        if s[k] == ')' {
            return k;
        }
        k += 1;
    }
    s.len()
}

/// A marker as the scan finds it: `inner.0..inner.1` is what it wraps, `end`
/// where the text goes on.
pub struct Hit {
    pub inner: (usize, usize),
    pub end: usize,
}

/// Looks for a marker of kind `m` at position `i` of `s`.
pub fn find_marker(m: Marker, s: &Vec<char>, i: usize) -> (r: Option<Hit>)
    ensures
        match r {
            Some(hit) => {
                &&& hit.inner.0 <= hit.inner.1 <= hit.end <= s.len()
                &&& i < hit.end
                &&& marker_at(m, s@, i as int) == Some(
                    Found {
                        inner: s@.subrange(hit.inner.0 as int, hit.inner.1 as int),
                        end: hit.end as int,
                    },
                )
            },
            None => marker_at(m, s@, i as int) is None,
        },
{
    proof {
        reveal_strlit("__PREFIX__");
        reveal_strlit("__HOST__");
        reveal_strlit("\\\"__RPX__(");
        reveal_strlit(")\\\"");
        reveal_strlit("@import-style (\\\"");
        reveal_strlit("\\\");");
    }
    match m {
        Marker::Prefix => {
            let pat = chars_of(PREFIX);
            if has_at(s, i, &pat) {
                assert(i + pat.len() <= s.len());
                assert(s@.subrange(i as int, i as int) =~= Seq::empty());
                Some(Hit { inner: (i, i), end: i + pat.len() })
            } else {
                None
            }
        },
        Marker::Host => {
            let pat = chars_of(HOST);
            if has_at(s, i, &pat) {
                assert(i + pat.len() <= s.len());
                assert(s@.subrange(i as int, i as int) =~= Seq::empty());
                Some(Hit { inner: (i, i), end: i + pat.len() })
            } else {
                None
            }
        },
        Marker::Rpx => {
            let open = chars_of(RPX_OPEN);
            let close = chars_of(RPX_CLOSE);
            if !has_at(s, i, &open) {
                return None;
            }
            assert(i + open.len() <= s.len());
            let from: usize = i + open.len();
            let at: usize = find_close(s, from);
            if from < at && has_at(s, at, &close) {
                Some(Hit { inner: (from, at), end: at + close.len() })
            } else {
                None
            }
        },
        Marker::Import => {
            let open = chars_of(IMPORT_OPEN);
            let close = chars_of(IMPORT_CLOSE);
            if !has_at(s, i, &open) {
                return None;
            }
            assert(i + open.len() <= s.len());
            let from: usize = i + open.len();
            let at: usize = find_close(s, from);
            if at >= 2 && from < at - 2 && has_at(s, at - 2, &close) {
                Some(Hit { inner: (from, at - 2), end: at - 2 + close.len() })
            } else {
                None
            }
        },
    }
}

/// The name of the function that stands for an imported style sheet, given
/// the digest of its address.
pub fn import_function(digest: &str) -> (name: String)
    ensures
        name@ == import_name_for(digest@),
{
    let mut name = String::from_str("I_");
    name.append(digest);
    name
}

/// The call of the function that stands for an imported style sheet, given
/// the digest of its address.
pub fn import_call(digest: &str) -> (code: String)
    ensures
        code@ == import_call_for(digest@),
{
    let mut code = String::from_str("\" , ");
    code.append(import_function(digest).as_str());
    code.append("(options) , \"");
    code
}

/// Appends to `out` the code that a marker of kind `m` becomes, given what it
/// wraps.
pub fn push_code(out: &mut Vec<char>, m: Marker, inner: &Vec<char>)
    ensures
        final(out)@ == old(out)@ + marker_code(m, inner@),
{
    let ghost before = out@;
    match m {
        Marker::Prefix => {
            push_str(out, PREFIX_CODE);
        },
        Marker::Host => {
            push_str(out, HOST_CODE);
        },
        Marker::Rpx => {
            push_str(out, "\" , rpx(");
            push_range(out, inner, 0, inner.len());
            push_str(out, ") , \"px");
            assert(inner@.subrange(0, inner.len() as int) =~= inner@);
            assert(out@ =~= before + marker_code(m, inner@));
        },
        Marker::Import => {
            let url = string_of(inner);
            let digest = md5_hash(url.as_str());
            push_str(out, import_call(digest.as_str()).as_str());
        },
    }
}

/// Replaces every marker of kind `m` in `s` by its code. Returns the new
/// text and what each marker wrapped, in the order of the text.
pub fn expand(m: Marker, s: &Vec<char>) -> (r: (Vec<char>, Vec<Vec<char>>))
    ensures
        r.0@ == expand_text(m, s@),
        views(r.1@) == inners(m, s@),
{
    let mut out: Vec<char> = Vec::new();
    let mut found: Vec<Vec<char>> = Vec::new();
    let mut i: usize = 0;
    while i < s.len()
        invariant
            i <= s.len(),
            out@ + expand_from(m, s@, i as int) == expand_text(m, s@),
            views(found@) + inners_from(m, s@, i as int) == inners(m, s@),
        decreases s.len() - i,
    {
        let ghost out0 = out@;
        let ghost found0 = found@;
        match find_marker(m, s, i) {
            Some(hit) => {
                let mut inner: Vec<char> = Vec::new();
                push_range(&mut inner, s, hit.inner.0, hit.inner.1);
                push_code(&mut out, m, &inner);
                found.push(inner);
                proof {
                    let code = marker_code(m, inner@);
                    assert((out0 + code) + expand_from(m, s@, hit.end as int) =~= out0 + (code
                        + expand_from(m, s@, hit.end as int)));
                    assert(views(found@) =~= views(found0) + seq![inner@]);
                    assert((views(found0) + seq![inner@]) + inners_from(m, s@, hit.end as int)
                        =~= views(found0) + (seq![inner@] + inners_from(m, s@, hit.end as int)));
                }
                i = hit.end;
            },
            None => {
                out.push(s[i]);
                proof {
                    assert(out0.push(s@[i as int]) + expand_from(m, s@, i + 1) =~= out0 + (
                    seq![s@[i as int]] + expand_from(m, s@, i + 1)));
                }
                i += 1;
            },
        }
    }
    proof {
        assert(out@ + Seq::<char>::empty() =~= out@);
        assert(views(found@) + Seq::<Seq<char>>::empty() =~= views(found@));
    }
    (out, found)
}

} // verus!
