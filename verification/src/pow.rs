//! The multi-algorithm hash puzzle and its seal verifier.
//!
//! A seal proves that a miner hashed `(difficulty, pre_hash, nonce)` with one
//! of the supported algorithms and landed under the difficulty target. The
//! difficulty test is the overflow form: a digest `d` meets target `t` when
//! the 256-bit product `d * t` does not overflow, i.e. `d * t < 2^256`.
//! Which algorithms are legal at a given height is the fork policy's call.

use vstd::prelude::*;
use vstd::arithmetic::mul::{lemma_mul_inequality, lemma_mul_is_commutative};
use vstd::slice::slice_index_get;

use crate::codec::{
    push_u256_be, push_u256_le, read_u256_be, read_u256_le, u256_be_bytes, u256_from_be,
    u256_from_le, u256_le_bytes, lemma_u256_be_roundtrip, lemma_u256_le_roundtrip,
};
use crate::hashes::{
    keccak_256_hash, keccak_256_of, md5_hash, md5_of, sha3_256_hash, sha3_256_of,
};
use crate::u256::{p256, U256};

verus! {

/// The hash algorithms a seal may be built with.
#[derive(Clone, Copy, PartialEq, Eq, Structural, Debug)]
pub enum SupportedHashes {
    Md5,
    Sha3,
    Keccak,
}

impl Default for SupportedHashes {
    /// The default mining algorithm.
    fn default() -> (r: Self)
        ensures
            r == SupportedHashes::Sha3,
    {
        SupportedHashes::Sha3
    }
}

/// A difficulty threshold, one 256-bit target per supported algorithm.
#[derive(Clone, Copy, PartialEq, Eq, Structural, Debug)]
pub struct Threshold {
    pub md5: U256,
    pub sha3: U256,
    pub keccak: U256,
}

impl Threshold {
    /// Componentwise accumulation of per-algorithm work, sticking at the
    /// largest representable value instead of aborting on overflow.
    pub fn increment(&mut self, other: Threshold)
        ensures
            final(self).md5.v() == if old(self).md5.v() + other.md5.v() < p256() {
                old(self).md5.v() + other.md5.v()
            } else {
                U256::max_value()
            },
            final(self).sha3.v() == if old(self).sha3.v() + other.sha3.v() < p256() {
                old(self).sha3.v() + other.sha3.v()
            } else {
                U256::max_value()
            },
            final(self).keccak.v() == if old(self).keccak.v() + other.keccak.v() < p256() {
                old(self).keccak.v() + other.keccak.v()
            } else {
                U256::max_value()
            },
    {
        self.md5 = self.md5.saturating_add(other.md5);
        self.sha3 = self.sha3.saturating_add(other.sha3);
        self.keccak = self.keccak.saturating_add(other.keccak);
    }
}

/// A hash value tagged with the algorithm that produced it.
#[derive(Clone, Copy, PartialEq, Eq, Structural, Debug)]
pub struct MultiHash {
    pub algo: SupportedHashes,
    pub value: U256,
}

/// The proof-of-work payload attached to a block.
#[derive(Clone, Copy, PartialEq, Eq, Structural, Debug)]
pub struct Seal {
    pub work: MultiHash,
    pub difficulty: Threshold,
    pub nonce: U256,
}

/// A not-yet-hashed puzzle attempt; `compute` turns it into a seal.
#[derive(Clone, Copy, PartialEq, Eq, Structural, Debug)]
pub struct Compute {
    pub difficulty: Threshold,
    pub pre_hash: U256,
    pub nonce: U256,
}

/// The overflow-based difficulty test on one digest and one target.
pub open spec fn spec_simple_meets(hash: U256, difficulty: U256) -> bool {
    hash.v() * difficulty.v() < p256()
}

/// Whether the digest meets the threshold component of its own algorithm.
pub open spec fn spec_multi_meets(hash: MultiHash, difficulty: Threshold) -> bool {
    match hash.algo {
        SupportedHashes::Md5 => spec_simple_meets(hash.value, difficulty.md5),
        SupportedHashes::Sha3 => spec_simple_meets(hash.value, difficulty.sha3),
        SupportedHashes::Keccak => spec_simple_meets(hash.value, difficulty.keccak),
    }
}

/// Determine whether the given hash satisfies the given difficulty: the
/// product of the two 256-bit values must not overflow 256 bits.
pub fn simple_hash_meets_difficulty(hash: &U256, difficulty: U256) -> (r: bool)
    ensures
        r == spec_simple_meets(*hash, difficulty),
{
    hash.mul_fits(difficulty)
}

/// Dispatch the difficulty test to the component matching the digest's algorithm.
pub fn multi_hash_meets_difficulty(hash: &MultiHash, difficulty: Threshold) -> (r: bool)
    ensures
        r == spec_multi_meets(*hash, difficulty),
{
    match hash.algo {
        SupportedHashes::Md5 => simple_hash_meets_difficulty(&hash.value, difficulty.md5),
        SupportedHashes::Sha3 => simple_hash_meets_difficulty(&hash.value, difficulty.sha3),
        SupportedHashes::Keccak => simple_hash_meets_difficulty(&hash.value, difficulty.keccak),
    }
}

/// Loosening a threshold component never turns a passing digest into a
/// failing one: the difficulty test is monotone in the target.
pub proof fn lemma_meets_difficulty_monotone(hash: U256, t1: U256, t2: U256)
    requires
        t1.v() <= t2.v(),
        spec_simple_meets(hash, t2),
    ensures
        spec_simple_meets(hash, t1),
{
    hash.lemma_v_bounds();
    t1.lemma_v_bounds();
    lemma_mul_inequality(t1.v(), t2.v(), hash.v());
    lemma_mul_is_commutative(t1.v(), hash.v());
    lemma_mul_is_commutative(t2.v(), hash.v());
}

/// The componentwise form of the monotonicity law, for full thresholds.
pub proof fn lemma_multi_meets_monotone(hash: MultiHash, t1: Threshold, t2: Threshold)
    requires
        t1.md5.v() <= t2.md5.v(),
        t1.sha3.v() <= t2.sha3.v(),
        t1.keccak.v() <= t2.keccak.v(),
        spec_multi_meets(hash, t2),
    ensures
        spec_multi_meets(hash, t1),
{
    match hash.algo {
        SupportedHashes::Md5 => lemma_meets_difficulty_monotone(hash.value, t1.md5, t2.md5),
        SupportedHashes::Sha3 => lemma_meets_difficulty_monotone(hash.value, t1.sha3, t2.sha3),
        SupportedHashes::Keccak => lemma_meets_difficulty_monotone(
            hash.value,
            t1.keccak,
            t2.keccak,
        ),
    }
}

/// The wire tag of an algorithm: its declaration index.
pub open spec fn algo_tag(algo: SupportedHashes) -> u8 {
    match algo {
        SupportedHashes::Md5 => 0,
        SupportedHashes::Sha3 => 1,
        SupportedHashes::Keccak => 2,
    }
}

/// The algorithm named by a wire tag.
pub open spec fn tag_algo(tag: u8) -> SupportedHashes {
    if tag == 0 {
        SupportedHashes::Md5
    } else if tag == 1 {
        SupportedHashes::Sha3
    } else {
        SupportedHashes::Keccak
    }
}

/// The one-byte pre-digest announcing the mining algorithm.
pub open spec fn algo_bytes(algo: SupportedHashes) -> Seq<u8> {
    seq![algo_tag(algo)]
}

/// Encode the mining algorithm for the pre-runtime digest.
pub fn encode_algo(algo: &SupportedHashes) -> (r: Vec<u8>)
    ensures
        r@ == algo_bytes(*algo),
{
    let tag: u8 = match algo {
        SupportedHashes::Md5 => 0,
        SupportedHashes::Sha3 => 1,
        SupportedHashes::Keccak => 2,
    };
    let mut out: Vec<u8> = Vec::new();
    out.push(tag);
    proof {
        assert(out@ =~= algo_bytes(*algo));
    }
    out
}

/// Whether a byte string starts with a valid algorithm tag.
pub open spec fn valid_algo_bytes(s: Seq<u8>) -> bool {
    s.len() >= 1 && s[0] <= 2
}

/// Decode a pre-digest into the algorithm it announces; trailing bytes are
/// ignored, exactly as the wire decoder of the block producers does.
pub fn decode_algo(b: &[u8]) -> (r: Option<SupportedHashes>)
    ensures
        r == if valid_algo_bytes(b@) {
            Some(tag_algo(b@[0]))
        } else {
            None::<SupportedHashes>
        },
{
    if b.len() < 1 {
        return None;
    }
    let tag = *slice_index_get(b, 0);
    if tag == 0 {
        Some(SupportedHashes::Md5)
    } else if tag == 1 {
        Some(SupportedHashes::Sha3)
    } else if tag == 2 {
        Some(SupportedHashes::Keccak)
    } else {
        None
    }
}

/// The canonical bytes a puzzle attempt is hashed over: the three difficulty
/// components little-endian, then the raw pre-hash, then the nonce.
pub open spec fn compute_bytes(c: Compute) -> Seq<u8> {
    u256_le_bytes(c.difficulty.md5) + u256_le_bytes(c.difficulty.sha3) + u256_le_bytes(
        c.difficulty.keccak,
    ) + u256_be_bytes(c.pre_hash) + u256_le_bytes(c.nonce)
}

/// Encode a puzzle attempt into the exact bytes that get hashed.
pub fn encode_compute(c: &Compute) -> (r: Vec<u8>)
    ensures
        r@ == compute_bytes(*c),
{
    let mut out: Vec<u8> = Vec::new();
    push_u256_le(&mut out, c.difficulty.md5);
    push_u256_le(&mut out, c.difficulty.sha3);
    push_u256_le(&mut out, c.difficulty.keccak);
    push_u256_be(&mut out, c.pre_hash);
    push_u256_le(&mut out, c.nonce);
    proof {
        assert(out@ =~= compute_bytes(*c));
    }
    out
}

/// The canonical wire bytes of a seal: algorithm tag, raw digest bytes, the
/// three difficulty components little-endian, then the nonce.
pub open spec fn seal_bytes(s: Seal) -> Seq<u8> {
    seq![algo_tag(s.work.algo)] + u256_be_bytes(s.work.value) + u256_le_bytes(s.difficulty.md5)
        + u256_le_bytes(s.difficulty.sha3) + u256_le_bytes(s.difficulty.keccak) + u256_le_bytes(
        s.nonce,
    )
}

/// Encode a seal for the block's seal digest item.
pub fn encode_seal(s: &Seal) -> (r: Vec<u8>)
    ensures
        r@ == seal_bytes(*s),
{
    let tag: u8 = match s.work.algo {
        SupportedHashes::Md5 => 0,
        SupportedHashes::Sha3 => 1,
        SupportedHashes::Keccak => 2,
    };
    let mut out: Vec<u8> = Vec::new();
    out.push(tag);
    push_u256_be(&mut out, s.work.value);
    push_u256_le(&mut out, s.difficulty.md5);
    push_u256_le(&mut out, s.difficulty.sha3);
    push_u256_le(&mut out, s.difficulty.keccak);
    push_u256_le(&mut out, s.nonce);
    proof {
        assert(out@ =~= seal_bytes(*s));
    }
    out
}

/// Whether a byte string decodes as a seal: long enough and a known tag.
/// Trailing bytes are ignored, as the wire decoder of block producers does.
pub open spec fn valid_seal_bytes(s: Seq<u8>) -> bool {
    s.len() >= 161 && s[0] <= 2
}

/// The seal encoded by a valid byte string.
pub open spec fn spec_decode_seal(s: Seq<u8>) -> Seal {
    Seal {
        work: MultiHash { algo: tag_algo(s[0]), value: u256_from_be(s.subrange(1, 33)) },
        difficulty: Threshold {
            md5: u256_from_le(s.subrange(33, 65)),
            sha3: u256_from_le(s.subrange(65, 97)),
            keccak: u256_from_le(s.subrange(97, 129)),
        },
        nonce: u256_from_le(s.subrange(129, 161)),
    }
}

/// Decode a raw seal blob; an undecodable blob gives `None`.
pub fn decode_seal(b: &[u8]) -> (r: Option<Seal>)
    ensures
        r == if valid_seal_bytes(b@) {
            Some(spec_decode_seal(b@))
        } else {
            None::<Seal>
        },
{
    let n = b.len();
    if n < 161 {
        return None;
    }
    let tag = *slice_index_get(b, 0);
    if tag > 2 {
        return None;
    }
    let algo = if tag == 0 {
        SupportedHashes::Md5
    } else if tag == 1 {
        SupportedHashes::Sha3
    } else {
        SupportedHashes::Keccak
    };
    let value = read_u256_be(b, 1);
    let md5 = read_u256_le(b, 33);
    let sha3 = read_u256_le(b, 65);
    let keccak = read_u256_le(b, 97);
    let nonce = read_u256_le(b, 129);
    Some(
        Seal {
            work: MultiHash { algo, value },
            difficulty: Threshold { md5, sha3, keccak },
            nonce,
        },
    )
}

/// Encoding a seal and decoding the bytes gives the seal back.
pub proof fn lemma_seal_codec_roundtrip(s: Seal)
    ensures
        seal_bytes(s).len() == 161,
        valid_seal_bytes(seal_bytes(s)),
        spec_decode_seal(seal_bytes(s)) == s,
{
    lemma_u256_be_roundtrip(s.work.value);
    lemma_u256_le_roundtrip(s.difficulty.md5);
    lemma_u256_le_roundtrip(s.difficulty.sha3);
    lemma_u256_le_roundtrip(s.difficulty.keccak);
    lemma_u256_le_roundtrip(s.nonce);
    let enc = seal_bytes(s);
    assert(enc.subrange(1, 33) =~= u256_be_bytes(s.work.value));
    assert(enc.subrange(33, 65) =~= u256_le_bytes(s.difficulty.md5));
    assert(enc.subrange(65, 97) =~= u256_le_bytes(s.difficulty.sha3));
    assert(enc.subrange(97, 129) =~= u256_le_bytes(s.difficulty.keccak));
    assert(enc.subrange(129, 161) =~= u256_le_bytes(s.nonce));
}

/// The digest value a given algorithm assigns to the input bytes. The MD5
/// digest is only 16 bytes, so it is doubled to fill the 256-bit slot.
pub open spec fn digest_value(algo: SupportedHashes, input: Seq<u8>) -> U256 {
    match algo {
        SupportedHashes::Md5 => u256_from_be(md5_of(input) + md5_of(input)),
        SupportedHashes::Sha3 => u256_from_be(sha3_256_of(input)),
        SupportedHashes::Keccak => u256_from_be(keccak_256_of(input)),
    }
}

/// The seal that a puzzle attempt deterministically computes to.
pub open spec fn spec_compute(c: Compute, algo: SupportedHashes) -> Seal {
    Seal {
        work: MultiHash { algo, value: digest_value(algo, compute_bytes(c)) },
        difficulty: c.difficulty,
        nonce: c.nonce,
    }
}

impl Compute {
    /// Hash the encoded attempt with the chosen algorithm and wrap the
    /// tagged digest into a full seal.
    pub fn compute(self, algo: SupportedHashes) -> (s: Seal)
        ensures
            s == spec_compute(self, algo),
    {
        let enc = encode_compute(&self);
        let value: U256 = match algo {
            SupportedHashes::Md5 => {
                let d = md5_hash(&enc);
                let mut doubled: Vec<u8> = Vec::new();
                let mut k: usize = 0;
                while k < 16
                    invariant
                        k <= 16,
                        d@.len() == 16,
                        doubled@ =~= d@.subrange(0, k as int),
                    decreases 16 - k,
                {
                    let byte = *slice_index_get(d.as_slice(), k);
                    doubled.push(byte);
                    proof {
                        assert(doubled@ =~= d@.subrange(0, k + 1));
                    }
                    k = k + 1;
                }
                k = 0;
                while k < 16
                    invariant
                        k <= 16,
                        d@.len() == 16,
                        doubled@ =~= d@ + d@.subrange(0, k as int),
                    decreases 16 - k,
                {
                    let byte = *slice_index_get(d.as_slice(), k);
                    doubled.push(byte);
                    proof {
                        assert(doubled@ =~= d@ + d@.subrange(0, k + 1));
                    }
                    k = k + 1;
                }
                proof {
                    assert(doubled@ =~= md5_of(enc@) + md5_of(enc@));
                    assert(doubled@.subrange(0, 32) =~= doubled@);
                }
                read_u256_be(doubled.as_slice(), 0)
            },
            SupportedHashes::Sha3 => {
                let d = sha3_256_hash(&enc);
                proof {
                    assert(d@.subrange(0, 32) =~= d@);
                }
                read_u256_be(d.as_slice(), 0)
            },
            SupportedHashes::Keccak => {
                let d = keccak_256_hash(&enc);
                proof {
                    assert(d@.subrange(0, 32) =~= d@);
                }
                read_u256_be(d.as_slice(), 0)
            },
        };
        Seal { work: MultiHash { algo, value }, difficulty: self.difficulty, nonce: self.nonce }
    }
}

/// The hash puzzle is a function: identical inputs always yield the same seal.
pub proof fn lemma_compute_deterministic(
    c: Compute,
    algo: SupportedHashes,
    s1: Seal,
    s2: Seal,
)
    requires
        s1 == spec_compute(c, algo),
        s2 == spec_compute(c, algo),
    ensures
        s1 == s2,
{
}

} // verus!

verus! {

/// The heights of the three planned forks, set once in the chain spec.
#[derive(Clone, Copy, PartialEq, Eq, Structural, Debug)]
pub struct ForkHeights {
    /// The height of the soft fork that adds SHA3 and Keccak support.
    pub add_sha3_keccak: u32,
    /// The height of the hard fork that removes MD5 support.
    pub remove_md5: u32,
    /// The height of the contentious fork where nodes pick a camp.
    pub split_sha3_keccak: u32,
}

/// The stance a node takes when the network splits into SHA3 and Keccak camps.
#[derive(Clone, Copy, PartialEq, Eq, Structural, Debug)]
pub enum MaxiPosition {
    /// Accept both SHA3 and Keccak blocks.
    NoMaxi,
    /// Accept only SHA3 blocks.
    Sha3Maxi,
    /// Accept only Keccak blocks.
    KeccakMaxi,
    /// Accept only blocks of the algorithm this node itself mines; resolved
    /// into one of the concrete stances before the policy is consulted.
    FollowMining,
}

/// How the node decides which algorithms are legal: fixed built-in heights,
/// or the heights and stance from its chain-spec extension.
#[derive(Clone, Copy, PartialEq, Eq, Structural, Debug)]
pub enum ForkingConfig {
    Manual,
    Automatic(ForkHeights, MaxiPosition),
}

/// The height at which the built-in manual schedule drops MD5.
pub const MANUAL_REMOVE_MD5_HEIGHT: u32 = 2300;

/// The manual schedule: every algorithm until the built-in height, then
/// everything but MD5.
pub open spec fn spec_manual_allowed(parent_number: u32, algo: SupportedHashes) -> bool {
    if parent_number < MANUAL_REMOVE_MD5_HEIGHT {
        true
    } else {
        algo != SupportedHashes::Md5
    }
}

/// Decide legality of an algorithm under the manual schedule.
pub fn manual_fork_validation(parent_number: u32, algo: SupportedHashes) -> (r: bool)
    ensures
        r == spec_manual_allowed(parent_number, algo),
{
    if parent_number < MANUAL_REMOVE_MD5_HEIGHT {
        match algo {
            SupportedHashes::Md5 => true,
            SupportedHashes::Sha3 => true,
            SupportedHashes::Keccak => true,
        }
    } else {
        match algo {
            SupportedHashes::Md5 => false,
            SupportedHashes::Sha3 => true,
            SupportedHashes::Keccak => true,
        }
    }
}

/// The automatic schedule, four height regimes: MD5 only, all three,
/// MD5 removed, and the contentious split decided by the node's stance.
pub open spec fn spec_auto_allowed(
    parent_number: u32,
    algo: SupportedHashes,
    fork_heights: ForkHeights,
    maxi_position: MaxiPosition,
) -> bool {
    if parent_number < fork_heights.add_sha3_keccak {
        algo == SupportedHashes::Md5
    } else if parent_number < fork_heights.remove_md5 {
        true
    } else if parent_number < fork_heights.split_sha3_keccak {
        algo != SupportedHashes::Md5
    } else {
        match (algo, maxi_position) {
            (SupportedHashes::Sha3, MaxiPosition::Sha3Maxi) => true,
            (SupportedHashes::Sha3, MaxiPosition::NoMaxi) => true,
            (SupportedHashes::Keccak, MaxiPosition::KeccakMaxi) => true,
            (SupportedHashes::Keccak, MaxiPosition::NoMaxi) => true,
            _ => false,
        }
    }
}

/// Decide legality of an algorithm under the configured fork heights.
pub fn auto_fork_validation(
    parent_number: u32,
    algo: SupportedHashes,
    fork_heights: ForkHeights,
    maxi_position: MaxiPosition,
) -> (r: bool)
    ensures
        r == spec_auto_allowed(parent_number, algo, fork_heights, maxi_position),
{
    if parent_number < fork_heights.add_sha3_keccak {
        match algo {
            SupportedHashes::Md5 => true,
            SupportedHashes::Sha3 => false,
            SupportedHashes::Keccak => false,
        }
    } else if parent_number < fork_heights.remove_md5 {
        match algo {
            SupportedHashes::Md5 => true,
            SupportedHashes::Sha3 => true,
            SupportedHashes::Keccak => true,
        }
    } else if parent_number < fork_heights.split_sha3_keccak {
        match algo {
            SupportedHashes::Md5 => false,
            SupportedHashes::Sha3 => true,
            SupportedHashes::Keccak => true,
        }
    } else {
        match (algo, maxi_position) {
            (SupportedHashes::Sha3, MaxiPosition::Sha3Maxi) => true,
            (SupportedHashes::Sha3, MaxiPosition::NoMaxi) => true,
            (SupportedHashes::Keccak, MaxiPosition::KeccakMaxi) => true,
            (SupportedHashes::Keccak, MaxiPosition::NoMaxi) => true,
            _ => false,
        }
    }
}

/// Legality of an algorithm under either policy mode.
pub open spec fn spec_allowed(
    config: ForkingConfig,
    parent_number: u32,
    algo: SupportedHashes,
) -> bool {
    match config {
        ForkingConfig::Manual => spec_manual_allowed(parent_number, algo),
        ForkingConfig::Automatic(fh, mp) => spec_auto_allowed(parent_number, algo, fh, mp),
    }
}

/// Exactly at the soft-fork boundary, the set of legal algorithms widens
/// from MD5 alone to all three: one block earlier only MD5 passes, and from
/// the fork height on every algorithm passes.
pub proof fn lemma_fork_boundary(fork_heights: ForkHeights, maxi_position: MaxiPosition)
    requires
        fork_heights.add_sha3_keccak >= 1,
        fork_heights.add_sha3_keccak < fork_heights.remove_md5,
    ensures
        spec_auto_allowed(
            (fork_heights.add_sha3_keccak - 1) as u32,
            SupportedHashes::Md5,
            fork_heights,
            maxi_position,
        ),
        !spec_auto_allowed(
            (fork_heights.add_sha3_keccak - 1) as u32,
            SupportedHashes::Sha3,
            fork_heights,
            maxi_position,
        ),
        !spec_auto_allowed(
            (fork_heights.add_sha3_keccak - 1) as u32,
            SupportedHashes::Keccak,
            fork_heights,
            maxi_position,
        ),
        forall|algo: SupportedHashes|
            spec_auto_allowed(fork_heights.add_sha3_keccak, algo, fork_heights, maxi_position),
{
}

/// The multi-algorithm proof-of-work verifier, configured with the node's
/// fork policy. The chain state lookups (parent height, stored difficulty)
/// stay with the caller, which hands in plain values.
#[derive(Clone, Copy, PartialEq, Eq, Structural, Debug)]
pub struct MultiPow {
    pub fork_config: ForkingConfig,
}

/// What seal verification decides, step by step: the blob must decode, the
/// pre-digest must be present and name the seal's own algorithm, the fork
/// policy must allow that algorithm, the digest must meet the difficulty,
/// and recomputing the puzzle from the pre-hash and nonce must reproduce
/// the submitted seal exactly.
pub open spec fn spec_verify(
    config: ForkingConfig,
    parent_number: u32,
    pre_hash: U256,
    pre_digest: Option<Seq<u8>>,
    seal: Seq<u8>,
    difficulty: Threshold,
) -> bool {
    if !valid_seal_bytes(seal) {
        false
    } else {
        let s = spec_decode_seal(seal);
        match pre_digest {
            Option::None => false,
            Option::Some(pd) => {
                if !valid_algo_bytes(pd) {
                    false
                } else if tag_algo(pd[0]) != s.work.algo {
                    false
                } else if !spec_allowed(config, parent_number, s.work.algo) {
                    false
                } else if !spec_multi_meets(s.work, difficulty) {
                    false
                } else {
                    spec_compute(
                        Compute { difficulty, pre_hash, nonce: s.nonce },
                        s.work.algo,
                    ) == s
                }
            },
        }
    }
}

impl MultiPow {
    pub fn new(fork_config: ForkingConfig) -> (r: Self)
        ensures
            r.fork_config == fork_config,
    {
        MultiPow { fork_config }
    }

    /// Verify a raw seal against the chain state at its parent. Every
    /// failure is a plain `false`: an invalid seal is an expected outcome.
    pub fn verify(
        &self,
        parent_number: u32,
        pre_hash: &U256,
        pre_digest: Option<&[u8]>,
        seal: &[u8],
        difficulty: Threshold,
    ) -> (r: bool)
        ensures
            r == spec_verify(
                self.fork_config,
                parent_number,
                *pre_hash,
                match pre_digest {
                    Option::Some(pd) => Option::Some(pd@),
                    Option::None => Option::None,
                },
                seal@,
                difficulty,
            ),
    {
        let decoded = decode_seal(seal);
        let s = match decoded {
            Option::Some(s) => s,
            Option::None => {
                return false;
            },
        };
        let encoded_pre_digest = match pre_digest {
            Option::Some(pd) => pd,
            Option::None => {
                return false;
            },
        };
        let algo_from_predigest = match decode_algo(encoded_pre_digest) {
            Option::Some(a) => a,
            Option::None => {
                return false;
            },
        };
        if s.work.algo != algo_from_predigest {
            return false;
        }
        let valid_algorithm = match self.fork_config {
            ForkingConfig::Manual => manual_fork_validation(parent_number, s.work.algo),
            ForkingConfig::Automatic(fork_heights, maxi_position) => auto_fork_validation(
                parent_number,
                s.work.algo,
                fork_heights,
                maxi_position,
            ),
        };
        if !valid_algorithm {
            return false;
        }
        if !multi_hash_meets_difficulty(&s.work, difficulty) {
            return false;
        }
        let compute = Compute { difficulty, pre_hash: *pre_hash, nonce: s.nonce };
        let recomputed = compute.compute(s.work.algo);
        if recomputed != s {
            return false;
        }
        true
    }
}

/// Extract the tagged work component of a raw seal blob, as the chain's
/// total-difficulty accounting needs it; an undecodable blob gives `None`.
pub fn actual_work(seal: &[u8]) -> (r: Option<MultiHash>)
    ensures
        r == if valid_seal_bytes(seal@) {
            Some(spec_decode_seal(seal@).work)
        } else {
            None::<MultiHash>
        },
{
    match decode_seal(seal) {
        Option::Some(s) => Some(s.work),
        Option::None => None,
    }
}

/// Mining and verification agree: a seal freshly computed from a puzzle
/// whose digest meets the difficulty, announced with the matching
/// pre-digest, at a height where its algorithm is allowed, always verifies.
pub proof fn lemma_mine_verify_roundtrip(
    config: ForkingConfig,
    parent_number: u32,
    pre_hash: U256,
    difficulty: Threshold,
    nonce: U256,
    algo: SupportedHashes,
)
    requires
        spec_multi_meets(
            spec_compute(Compute { difficulty, pre_hash, nonce }, algo).work,
            difficulty,
        ),
        spec_allowed(config, parent_number, algo),
    ensures
        spec_verify(
            config,
            parent_number,
            pre_hash,
            Option::Some(algo_bytes(algo)),
            seal_bytes(spec_compute(Compute { difficulty, pre_hash, nonce }, algo)),
            difficulty,
        ),
{
    let s = spec_compute(Compute { difficulty, pre_hash, nonce }, algo);
    lemma_seal_codec_roundtrip(s);
}

/// The puzzle encoding is injective: two different attempts never hash the
/// same bytes. In particular, changing the nonce, the pre-hash or any
/// difficulty component always changes the hashed input.
pub proof fn lemma_compute_bytes_injective(c1: Compute, c2: Compute)
    requires
        compute_bytes(c1) == compute_bytes(c2),
    ensures
        c1 == c2,
{
    lemma_u256_le_roundtrip(c1.difficulty.md5);
    lemma_u256_le_roundtrip(c1.difficulty.sha3);
    lemma_u256_le_roundtrip(c1.difficulty.keccak);
    lemma_u256_be_roundtrip(c1.pre_hash);
    lemma_u256_le_roundtrip(c1.nonce);
    lemma_u256_le_roundtrip(c2.difficulty.md5);
    lemma_u256_le_roundtrip(c2.difficulty.sha3);
    lemma_u256_le_roundtrip(c2.difficulty.keccak);
    lemma_u256_be_roundtrip(c2.pre_hash);
    lemma_u256_le_roundtrip(c2.nonce);
    let b1 = compute_bytes(c1);
    let b2 = compute_bytes(c2);
    assert(b1.subrange(0, 32) =~= u256_le_bytes(c1.difficulty.md5));
    assert(b1.subrange(32, 64) =~= u256_le_bytes(c1.difficulty.sha3));
    assert(b1.subrange(64, 96) =~= u256_le_bytes(c1.difficulty.keccak));
    assert(b1.subrange(96, 128) =~= u256_be_bytes(c1.pre_hash));
    assert(b1.subrange(128, 160) =~= u256_le_bytes(c1.nonce));
    assert(b2.subrange(0, 32) =~= u256_le_bytes(c2.difficulty.md5));
    assert(b2.subrange(32, 64) =~= u256_le_bytes(c2.difficulty.sha3));
    assert(b2.subrange(64, 96) =~= u256_le_bytes(c2.difficulty.keccak));
    assert(b2.subrange(96, 128) =~= u256_be_bytes(c2.pre_hash));
    assert(b2.subrange(128, 160) =~= u256_le_bytes(c2.nonce));
}

/// Proof binding, nonce side: a seal that carries the digest of one nonce
/// but claims another is rejected whenever the two nonces' puzzle inputs
/// hash differently - and by the injectivity of the encoding the inputs do
/// differ, so only a hash collision between them could slip through.
pub proof fn lemma_tampered_nonce_rejected(
    config: ForkingConfig,
    parent_number: u32,
    pre_hash: U256,
    difficulty: Threshold,
    algo: SupportedHashes,
    mined_nonce: U256,
    claimed_nonce: U256,
)
    requires
        digest_value(algo, compute_bytes(Compute { difficulty, pre_hash, nonce: claimed_nonce }))
            != digest_value(
            algo,
            compute_bytes(Compute { difficulty, pre_hash, nonce: mined_nonce }),
        ),
    ensures
        !spec_verify(
            config,
            parent_number,
            pre_hash,
            Option::Some(algo_bytes(algo)),
            seal_bytes(
                Seal {
                    work: MultiHash {
                        algo,
                        value: digest_value(
                            algo,
                            compute_bytes(Compute { difficulty, pre_hash, nonce: mined_nonce }),
                        ),
                    },
                    difficulty,
                    nonce: claimed_nonce,
                },
            ),
            difficulty,
        ),
{
    let mined = Compute { difficulty, pre_hash, nonce: mined_nonce };
    let s = Seal {
        work: MultiHash { algo, value: digest_value(algo, compute_bytes(mined)) },
        difficulty,
        nonce: claimed_nonce,
    };
    lemma_seal_codec_roundtrip(s);
}

/// Proof binding, digest side: substituting any other digest value into a
/// seal makes verification reject it, whatever else holds, because the
/// recomputation check pins the digest to the pre-hash and nonce.
pub proof fn lemma_forged_digest_rejected(
    config: ForkingConfig,
    parent_number: u32,
    pre_hash: U256,
    difficulty: Threshold,
    nonce: U256,
    algo: SupportedHashes,
    forged: U256,
)
    requires
        forged != digest_value(
            algo,
            compute_bytes(Compute { difficulty, pre_hash, nonce }),
        ),
    ensures
        !spec_verify(
            config,
            parent_number,
            pre_hash,
            Option::Some(algo_bytes(algo)),
            seal_bytes(Seal { work: MultiHash { algo, value: forged }, difficulty, nonce }),
            difficulty,
        ),
{
    let s = Seal { work: MultiHash { algo, value: forged }, difficulty, nonce };
    lemma_seal_codec_roundtrip(s);
}

} // verus!
