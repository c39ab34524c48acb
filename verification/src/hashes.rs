//! The three hash functions the puzzle can use, behind trusted wrappers.
//!
//! What MD5, SHA3-256 and Keccak-256 return cannot be stated in a few lines,
//! but each is a pure function of its input bytes, so each result is given a
//! name that the rest of the crate reasons with. The digest lengths are the
//! one fact the wrappers state beyond the names.

use vstd::prelude::*;

verus! {

/// The 16-byte MD5 digest of the input.
pub uninterp spec fn md5_of(input: Seq<u8>) -> Seq<u8>;

/// The 32-byte SHA3-256 digest of the input.
pub uninterp spec fn sha3_256_of(input: Seq<u8>) -> Seq<u8>;

/// The 32-byte Keccak-256 digest of the input.
pub uninterp spec fn keccak_256_of(input: Seq<u8>) -> Seq<u8>;

/// Relies on md5::compute: a 16-byte digest depending on the input alone.
#[verifier::external_body]
pub(crate) fn md5_hash(input: &Vec<u8>) -> (r: Vec<u8>)
    ensures
        r@ == md5_of(input@),
        r@.len() == 16,
{
    md5::compute(input.as_slice()).0.to_vec()
}

/// Relies on sha3::Sha3_256 (the Digest trait): a 32-byte digest depending
/// on the input alone.
#[verifier::external_body]
pub(crate) fn sha3_256_hash(input: &Vec<u8>) -> (r: Vec<u8>)
    ensures
        r@ == sha3_256_of(input@),
        r@.len() == 32,
{
    <sha3::Sha3_256 as sha3::Digest>::digest(input.as_slice()).as_slice().to_vec()
}

/// Relies on sha3::Keccak256 (the Digest trait): a 32-byte digest depending
/// on the input alone.
#[verifier::external_body]
pub(crate) fn keccak_256_hash(input: &Vec<u8>) -> (r: Vec<u8>)
    ensures
        r@ == keccak_256_of(input@),
        r@.len() == 32,
{
    <sha3::Keccak256 as sha3::Digest>::digest(input.as_slice()).as_slice().to_vec()
}

} // verus!
