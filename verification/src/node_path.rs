//! The last part of a path.

use crate::text::{chars_of, option_text, push_range, string_of};
use std::path::Path;
use vstd::prelude::*;

verus! {

/// The last component of a path as `std::path::Path::file_name` gives it on
/// the target platform, where there is one.
pub uninterp spec fn path_file_name(path: Seq<char>) -> Option<Seq<char>>;

/// `Path::file_name` of the path written as `path`.
#[verifier::external_body]
fn file_name(path: &str) -> (r: Option<String>)
    ensures
        option_text(r) == path_file_name(path@),
{
    Path::new(path).file_name()?.to_str().map(String::from)
}

/// The position of the last `.` in `name`, or -1 where there is none.
pub open spec fn last_dot(name: Seq<char>) -> int
    decreases name.len(),
{
    if name.len() == 0 {
        -1
    } else if name.last() == '.' {
        name.len() - 1
    } else {
        last_dot(name.drop_last())
    }
}

/// A file name without its extension: what stands in front of the last `.`;
/// the whole name where it holds no `.`, or none but the one it begins with.
pub open spec fn stem_of(name: Seq<char>) -> Seq<char> {
    if last_dot(name) <= 0 {
        name
    } else {
        name.subrange(0, last_dot(name))
    }
}

/// What `get_basename` gives for a path whose last component is `name`, if
/// it has one.
pub open spec fn basename_of(name: Option<Seq<char>>, with_extension: bool) -> Option<Seq<char>> {
    match name {
        Some(name) => Some(
            if with_extension {
                name
            } else {
                stem_of(name)
            },
        ),
        None => None,
    }
}

/// A file name without its extension.
pub fn file_stem(name: &str) -> (stem: String)
    ensures
        stem@ == stem_of(name@),
{
    let chars = chars_of(name);
    let mut at: usize = chars.len();
    assert(chars@.take(chars.len() as int) =~= chars@);
    while at > 0 && chars[at - 1] != '.'
        invariant
            at <= chars.len(),
            last_dot(chars@) == last_dot(chars@.take(at as int)),
        decreases at,
    {
        assert(chars@.take(at as int).drop_last() =~= chars@.take(at - 1));
        assert(chars@.take(at as int).last() == chars@[at - 1]);
        at -= 1;
    }
    proof {
        if at > 0 {
            assert(chars@.take(at as int).last() == chars@[at - 1]);
        }
    }
    if at <= 1 {
        return name.to_owned();
    }
    let mut stem: Vec<char> = Vec::new();
    push_range(&mut stem, &chars, 0, at - 1);
    string_of(&stem)
}

/// The last component of `path`, with its extension or without it. `None`
/// where the path has no last component.
pub fn get_basename(path: &str, with_extension: bool) -> (r: Option<String>)
    ensures
        option_text(r) == basename_of(path_file_name(path@), with_extension),
{
    match file_name(path) {
        Some(name) => {
            if with_extension {
                Some(name)
            } else {
                Some(file_stem(name.as_str()))
            }
        },
        None => None,
    }
}

} // verus!
