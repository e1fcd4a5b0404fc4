//! The digest that seeds a sigil.

use md5::Digest;
use vstd::prelude::*;

verus! {

/// The MD5 digest of `input`: sixteen bytes that depend on the input alone.
pub uninterp spec fn md5_digest(input: Seq<u8>) -> Seq<u8>;

/// Calls `md5::Md5::digest`, the one-shot form of the `Digest` trait: a fresh
/// hasher is fed `input` and finalized. The 16-byte output is a function of
/// the input bytes alone; the contract gives it the name [`md5_digest`] and
/// claims nothing else of it.
#[verifier::external_body]
fn md5_of(input: &[u8]) -> (digest: [u8; 16])
    ensures
        digest@ == md5_digest(input@),
{
    md5::Md5::digest(input).into()
}

/// Hashes `input` to the 16-byte digest that a sigil is generated from.
/// Any input is valid, the empty one too.
pub fn md5(input: &[u8]) -> (digest: [u8; 16])
    ensures
        digest@ == md5_digest(input@),
{
    md5_of(input)
}

} // verus!
