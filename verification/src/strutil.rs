//! Decoding of on-disk byte strings (labels, entry names) into Rust
//! strings.

use vstd::prelude::*;
use vstd::string::StringSliceAdditionalSpecFns;
use vstd::utf8::{encode_utf8, valid_utf8};

verus! {

/// The string that lossy UTF-8 decoding produces from a byte
/// sequence: invalid sequences become replacement characters.
pub uninterp spec fn utf8_lossy_of(bytes: Seq<u8>) -> Seq<char>;

/// Relies on `str::from_utf8`: it succeeds exactly on valid UTF-8 and
/// then decodes the bytes, so the result's UTF-8 encoding is the
/// input.
#[verifier::external_body]
pub fn utf8_str(bytes: &[u8]) -> (r: Option<&str>)
    ensures
        r is Some <==> valid_utf8(bytes@),
        r is Some ==> r->0.spec_bytes() == bytes@,
{
    core::str::from_utf8(bytes).ok()
}

/// Relies on `String::from_utf8_lossy`: the result depends on the
/// bytes alone; valid UTF-8 decodes to itself; an empty input gives
/// an empty string.
#[verifier::external_body]
pub fn utf8_lossy(bytes: &[u8]) -> (r: String)
    ensures
        r@ == utf8_lossy_of(bytes@),
        valid_utf8(bytes@) ==> encode_utf8(r@) == bytes@,
        bytes@.len() == 0 ==> r@.len() == 0,
{
    String::from_utf8_lossy(bytes).into_owned()
}

} // verus!
