//! The content digest that names objects in the reals store.

use vstd::prelude::*;

verus! {

/// The lowercase hex digest blake3 assigns to a byte string; a function of
/// the bytes alone.
pub uninterp spec fn blake3_hex_of(data: Seq<u8>) -> Seq<char>;

/// Relies on `blake3::hash` and `Hash::to_hex`: the digest depends on the
/// input bytes alone, and the hex form of the 32-byte digest has 64
/// characters.
#[verifier::external_body]
pub fn make_digest(data: &[u8]) -> (r: String)
    ensures
        r@ == blake3_hex_of(data@),
        r@.len() == 64,
{
    blake3::hash(data).to_hex().as_str().to_string()
}

} // verus!
