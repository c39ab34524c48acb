//! A single-algorithm SHA3-256 proof of work with a scalar difficulty.
//!
//! This is the simpler sibling of the multi-algorithm puzzle: one hash
//! function, one 256-bit target, no fork policy and no pre-digest check.

use vstd::prelude::*;

use crate::codec::{
    push_u256_be, push_u256_le, read_u256_be, read_u256_le, u256_be_bytes, u256_from_be,
    u256_from_le, u256_le_bytes, lemma_u256_be_roundtrip, lemma_u256_le_roundtrip,
};
use crate::hashes::{sha3_256_hash, sha3_256_of};
use crate::pow::{simple_hash_meets_difficulty, spec_simple_meets};
use crate::u256::U256;

verus! {

/// Determine whether the given hash satisfies the given difficulty: the
/// product of the two 256-bit values must not overflow 256 bits.
pub fn hash_meets_difficulty(hash: &U256, difficulty: U256) -> (r: bool)
    ensures
        r == spec_simple_meets(*hash, difficulty),
{
    simple_hash_meets_difficulty(hash, difficulty)
}

/// The proof-of-work payload of the single-algorithm chain.
#[derive(Clone, Copy, PartialEq, Eq, Structural, Debug)]
pub struct Seal {
    pub difficulty: U256,
    pub work: U256,
    pub nonce: U256,
}

/// A not-yet-hashed puzzle attempt; `compute` turns it into a seal.
#[derive(Clone, Copy, PartialEq, Eq, Structural, Debug)]
pub struct Compute {
    pub difficulty: U256,
    pub pre_hash: U256,
    pub nonce: U256,
}

/// The bytes a puzzle attempt is hashed over: difficulty little-endian,
/// then the raw pre-hash, then the nonce.
pub open spec fn compute_bytes(c: Compute) -> Seq<u8> {
    u256_le_bytes(c.difficulty) + u256_be_bytes(c.pre_hash) + u256_le_bytes(c.nonce)
}

/// Encode a puzzle attempt into the exact bytes that get hashed.
pub fn encode_compute(c: &Compute) -> (r: Vec<u8>)
    ensures
        r@ == compute_bytes(*c),
{
    let mut out: Vec<u8> = Vec::new();
    push_u256_le(&mut out, c.difficulty);
    push_u256_be(&mut out, c.pre_hash);
    push_u256_le(&mut out, c.nonce);
    proof {
        assert(out@ =~= compute_bytes(*c));
    }
    out
}

/// The seal that a puzzle attempt deterministically computes to.
pub open spec fn spec_compute(c: Compute) -> Seal {
    Seal {
        difficulty: c.difficulty,
        work: u256_from_be(sha3_256_of(compute_bytes(c))),
        nonce: c.nonce,
    }
}

impl Compute {
    /// Hash the encoded attempt with SHA3-256 and wrap it into a seal.
    pub fn compute(self) -> (s: Seal)
        ensures
            s == spec_compute(self),
    {
        let enc = encode_compute(&self);
        let d = sha3_256_hash(&enc);
        proof {
            assert(d@.subrange(0, 32) =~= d@);
        }
        let work = read_u256_be(d.as_slice(), 0);
        Seal { difficulty: self.difficulty, work, nonce: self.nonce }
    }
}

/// The wire bytes of a seal: difficulty little-endian, raw digest bytes,
/// then the nonce.
pub open spec fn seal_bytes(s: Seal) -> Seq<u8> {
    u256_le_bytes(s.difficulty) + u256_be_bytes(s.work) + u256_le_bytes(s.nonce)
}

/// Encode a seal for the block's seal digest item.
pub fn encode_seal(s: &Seal) -> (r: Vec<u8>)
    ensures
        r@ == seal_bytes(*s),
{
    let mut out: Vec<u8> = Vec::new();
    push_u256_le(&mut out, s.difficulty);
    push_u256_be(&mut out, s.work);
    push_u256_le(&mut out, s.nonce);
    proof {
        assert(out@ =~= seal_bytes(*s));
    }
    out
}

/// Whether a byte string decodes as a seal: it only has to be long enough;
/// trailing bytes are ignored, as the wire decoder of block producers does.
pub open spec fn valid_seal_bytes(s: Seq<u8>) -> bool {
    s.len() >= 96
}

/// The seal encoded by a valid byte string.
pub open spec fn spec_decode_seal(s: Seq<u8>) -> Seal {
    Seal {
        difficulty: u256_from_le(s.subrange(0, 32)),
        work: u256_from_be(s.subrange(32, 64)),
        nonce: u256_from_le(s.subrange(64, 96)),
    }
}

/// Decode a raw seal blob; an undecodable blob gives `None`.
pub fn decode_seal(b: &[u8]) -> (r: Option<Seal>)
    ensures
        r == if valid_seal_bytes(b@) {
            Some(spec_decode_seal(b@))
        } else {
            None::<Seal>
        },
{
    let n = b.len();
    if n < 96 {
        return None;
    }
    let difficulty = read_u256_le(b, 0);
    let work = read_u256_be(b, 32);
    let nonce = read_u256_le(b, 64);
    Some(Seal { difficulty, work, nonce })
}

/// Encoding a seal and decoding the bytes gives the seal back.
pub proof fn lemma_seal_codec_roundtrip(s: Seal)
    ensures
        seal_bytes(s).len() == 96,
        valid_seal_bytes(seal_bytes(s)),
        spec_decode_seal(seal_bytes(s)) == s,
{
    lemma_u256_le_roundtrip(s.difficulty);
    lemma_u256_be_roundtrip(s.work);
    lemma_u256_le_roundtrip(s.nonce);
    let enc = seal_bytes(s);
    assert(enc.subrange(0, 32) =~= u256_le_bytes(s.difficulty));
    assert(enc.subrange(32, 64) =~= u256_be_bytes(s.work));
    assert(enc.subrange(64, 96) =~= u256_le_bytes(s.nonce));
}

/// What seal verification decides: the blob must decode, the digest must
/// meet the difficulty, and recomputing the puzzle from the pre-hash and
/// nonce must reproduce the submitted seal exactly.
pub open spec fn spec_verify(pre_hash: U256, seal: Seq<u8>, difficulty: U256) -> bool {
    if !valid_seal_bytes(seal) {
        false
    } else {
        let s = spec_decode_seal(seal);
        if !spec_simple_meets(s.work, difficulty) {
            false
        } else {
            spec_compute(Compute { difficulty, pre_hash, nonce: s.nonce }) == s
        }
    }
}

/// The SHA3-only proof-of-work verifier. The chain state lookups stay with
/// the caller, which hands in plain values.
#[derive(Clone, Copy, PartialEq, Eq, Structural, Debug)]
pub struct Sha3Algorithm {
}

impl Sha3Algorithm {
    pub fn new() -> (r: Self) {
        Sha3Algorithm {  }
    }

    /// Verify a raw seal against the pre-hash and the current difficulty.
    pub fn verify(&self, pre_hash: &U256, seal: &[u8], difficulty: U256) -> (r: bool)
        ensures
            r == spec_verify(*pre_hash, seal@, difficulty),
    {
        let s = match decode_seal(seal) {
            Option::Some(s) => s,
            Option::None => {
                return false;
            },
        };
        if !hash_meets_difficulty(&s.work, difficulty) {
            return false;
        }
        let compute = Compute { difficulty, pre_hash: *pre_hash, nonce: s.nonce };
        let recomputed = compute.compute();
        recomputed == s
    }
}

/// Mining and verification agree for the single-algorithm chain as well.
pub proof fn lemma_mine_verify_roundtrip(pre_hash: U256, difficulty: U256, nonce: U256)
    requires
        spec_simple_meets(spec_compute(Compute { difficulty, pre_hash, nonce }).work, difficulty),
    ensures
        spec_verify(
            pre_hash,
            seal_bytes(spec_compute(Compute { difficulty, pre_hash, nonce })),
            difficulty,
        ),
{
    lemma_seal_codec_roundtrip(spec_compute(Compute { difficulty, pre_hash, nonce }));
}

} // verus!
