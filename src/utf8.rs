//! Whether a byte sequence is well-formed UTF-8 text, as std decides it.
use vstd::prelude::*;

verus! {

/// Whether `b` decodes, as a whole, to UTF-8 text.
pub uninterp spec fn is_utf8(b: Seq<u8>) -> bool;

/// Relies on `std::str::from_utf8`: `Ok` exactly when the whole slice is
/// well-formed UTF-8, which depends on the bytes alone.
#[verifier::external_body]
pub(crate) fn decodes_as_utf8(b: &Vec<u8>) -> (r: bool)
    ensures
        r == is_utf8(b@),
{
    match std::str::from_utf8(b.as_slice()) {
        Ok(_) => true,
        Err(_) => false,
    }
}

} // verus!
