//! The content hash that names an imported style sheet.

use md5::{Digest, Md5};
use vstd::prelude::*;

verus! {

/// The MD5 digest of the UTF-8 bytes of a text, as lower-case hexadecimal
/// digits.
pub uninterp spec fn md5_hex(input: Seq<char>) -> Seq<char>;

/// `Md5` of the `md-5` crate over the bytes of `input`, printed with `{:x}`.
#[verifier::external_body]
pub(crate) fn md5_hash(input: &str) -> (r: String)
    ensures
        r@ == md5_hex(input@),
{
    let mut hasher = Md5::new();
    hasher.update(input.as_bytes());
    format!("{:x}", hasher.finalize())
}

} // verus!
