use academy_pow::pow::{
    auto_fork_validation, decode_algo, decode_seal, encode_algo, encode_compute, encode_seal,
    manual_fork_validation, multi_hash_meets_difficulty, simple_hash_meets_difficulty,
    Compute, ForkHeights, ForkingConfig, MaxiPosition, MultiHash, MultiPow, Seal,
    SupportedHashes, Threshold,
};
use academy_pow::codec::read_u256_be;
use academy_pow::pow::actual_work;
use parity_scale_codec::Encode;
use academy_pow::u256::U256;

fn u(x: u128) -> U256 {
    U256::from_u128(x)
}

fn easy_threshold() -> Threshold {
    // A target of 1 never overflows the product, so every digest meets it.
    Threshold { md5: u(1), sha3: u(1), keccak: u(1) }
}

fn impossible_threshold() -> Threshold {
    // The largest target overflows for every digest above one.
    Threshold { md5: U256::max(), sha3: U256::max(), keccak: U256::max() }
}

#[test]
fn meets_difficulty_overflow_semantics() {
    // 2^255 * 2 == 2^256 overflows by exactly one bit.
    let half = U256 { lo: 0, hi: 1u128 << 127 };
    assert!(!simple_hash_meets_difficulty(&half, u(2)));
    assert!(simple_hash_meets_difficulty(&half, u(1)));
    // (2^255 - 1) * 2 < 2^256 still fits.
    let below = U256 { lo: u128::MAX, hi: (1u128 << 127) - 1 };
    assert!(simple_hash_meets_difficulty(&below, u(2)));
    // A zero target never overflows: the check is vacuously met.
    assert!(simple_hash_meets_difficulty(&U256::max(), u(0)));
    // A zero digest meets anything.
    assert!(simple_hash_meets_difficulty(&U256::zero(), U256::max()));
}

#[test]
fn multi_meets_dispatches_by_algorithm() {
    let hash = MultiHash { algo: SupportedHashes::Sha3, value: U256 { lo: 0, hi: 1u128 << 127 } };
    let loose_sha3 = Threshold { md5: U256::max(), sha3: u(1), keccak: U256::max() };
    let tight_sha3 = Threshold { md5: u(1), sha3: U256::max(), keccak: u(1) };
    assert!(multi_hash_meets_difficulty(&hash, loose_sha3));
    assert!(!multi_hash_meets_difficulty(&hash, tight_sha3));
}

#[test]
fn compute_matches_direct_sha3() {
    let c = Compute { difficulty: easy_threshold(), pre_hash: u(7), nonce: u(99) };
    let seal = c.compute(SupportedHashes::Sha3);
    let enc = encode_compute(&c);
    let digest = <sha3::Sha3_256 as sha3::Digest>::digest(&enc[..]);
    let expected = read_u256_be(digest.as_slice(), 0);
    assert_eq!(seal.work.value, expected);
    assert_eq!(seal.work.algo, SupportedHashes::Sha3);
    assert_eq!(seal.nonce, u(99));
    assert_eq!(seal.difficulty, easy_threshold());
}

#[test]
fn compute_matches_direct_keccak() {
    let c = Compute { difficulty: easy_threshold(), pre_hash: u(8), nonce: u(100) };
    let seal = c.compute(SupportedHashes::Keccak);
    let enc = encode_compute(&c);
    let digest = <sha3::Keccak256 as sha3::Digest>::digest(&enc[..]);
    let expected = read_u256_be(digest.as_slice(), 0);
    assert_eq!(seal.work.value, expected);
}

#[test]
fn compute_doubles_md5_digest() {
    let c = Compute { difficulty: easy_threshold(), pre_hash: u(9), nonce: u(101) };
    let seal = c.compute(SupportedHashes::Md5);
    let enc = encode_compute(&c);
    let md5_digest = md5::compute(&enc[..]).0;
    let mut doubled = [0u8; 32];
    doubled[0..16].copy_from_slice(&md5_digest);
    doubled[16..32].copy_from_slice(&md5_digest);
    let expected = read_u256_be(&doubled, 0);
    assert_eq!(seal.work.value, expected);
}

#[test]
fn compute_is_deterministic() {
    let c = Compute { difficulty: easy_threshold(), pre_hash: u(123), nonce: u(456) };
    let s1 = c.compute(SupportedHashes::Sha3);
    let s2 = c.compute(SupportedHashes::Sha3);
    assert_eq!(s1, s2);
}

#[test]
fn encoding_matches_scale_codec() {
    let c = Compute {
        difficulty: Threshold { md5: u(5), sha3: u(6), keccak: u(7) },
        pre_hash: U256 { lo: 11, hi: 22 },
        nonce: u(33),
    };
    // SCALE encodes a pair of u128 limbs exactly as one 256-bit
    // little-endian value, and the pre-hash travels as its raw bytes.
    let mut expected: Vec<u8> = Vec::new();
    expected.extend((5u128, 0u128).encode());
    expected.extend((6u128, 0u128).encode());
    expected.extend((7u128, 0u128).encode());
    let mut pre_hash_le: Vec<u8> = (11u128, 22u128).encode();
    pre_hash_le.reverse();
    expected.extend(pre_hash_le);
    expected.extend((33u128, 0u128).encode());
    assert_eq!(encode_compute(&c), expected);
    assert_eq!(expected.len(), 160);
}

#[test]
fn seal_codec_roundtrip_and_trailing_bytes() {
    let seal = Seal {
        work: MultiHash { algo: SupportedHashes::Keccak, value: U256 { lo: 3, hi: 4 } },
        difficulty: Threshold { md5: u(1), sha3: u(2), keccak: u(3) },
        nonce: U256 { lo: 5, hi: 6 },
    };
    let mut enc = encode_seal(&seal);
    assert_eq!(enc.len(), 161);
    let decoded = decode_seal(&enc).expect("fresh encoding must decode");
    assert_eq!(decoded, seal);
    // Trailing junk is ignored, as the wire decoder does.
    enc.push(0xAB);
    let decoded2 = decode_seal(&enc).expect("trailing bytes are ignored");
    assert_eq!(decoded2, seal);
}

#[test]
fn seal_decode_rejects_bad_input() {
    // Too short.
    assert!(decode_seal(&[0u8; 160]).is_none());
    // Unknown algorithm tag.
    let mut bytes = [0u8; 161];
    bytes[0] = 3;
    assert!(decode_seal(&bytes).is_none());
    bytes[0] = 2;
    assert!(decode_seal(&bytes).is_some());
}

#[test]
fn pre_digest_codec() {
    assert_eq!(encode_algo(&SupportedHashes::Md5), vec![0u8]);
    assert_eq!(encode_algo(&SupportedHashes::Sha3), vec![1u8]);
    assert_eq!(encode_algo(&SupportedHashes::Keccak), vec![2u8]);
    assert_eq!(decode_algo(&[0u8]), Some(SupportedHashes::Md5));
    assert_eq!(decode_algo(&[1u8, 9u8]), Some(SupportedHashes::Sha3));
    assert_eq!(decode_algo(&[3u8]), None);
    assert_eq!(decode_algo(&[]), None);
}

fn all_heights() -> ForkHeights {
    ForkHeights { add_sha3_keccak: 10, remove_md5: 20, split_sha3_keccak: 30 }
}

#[test]
fn auto_fork_boundaries() {
    let fh = all_heights();
    let mp = MaxiPosition::NoMaxi;
    // One block before the soft fork only the legacy algorithm passes.
    assert!(auto_fork_validation(9, SupportedHashes::Md5, fh, mp));
    assert!(!auto_fork_validation(9, SupportedHashes::Sha3, fh, mp));
    assert!(!auto_fork_validation(9, SupportedHashes::Keccak, fh, mp));
    // From the fork height on, all three pass.
    assert!(auto_fork_validation(10, SupportedHashes::Md5, fh, mp));
    assert!(auto_fork_validation(10, SupportedHashes::Sha3, fh, mp));
    assert!(auto_fork_validation(10, SupportedHashes::Keccak, fh, mp));
    // The hard fork removes the legacy algorithm.
    assert!(auto_fork_validation(19, SupportedHashes::Md5, fh, mp));
    assert!(!auto_fork_validation(20, SupportedHashes::Md5, fh, mp));
    assert!(auto_fork_validation(20, SupportedHashes::Sha3, fh, mp));
}

#[test]
fn contentious_split_positions() {
    let fh = all_heights();
    // At the split, the stance decides.
    assert!(auto_fork_validation(30, SupportedHashes::Sha3, fh, MaxiPosition::NoMaxi));
    assert!(auto_fork_validation(30, SupportedHashes::Keccak, fh, MaxiPosition::NoMaxi));
    assert!(!auto_fork_validation(30, SupportedHashes::Md5, fh, MaxiPosition::NoMaxi));
    assert!(auto_fork_validation(30, SupportedHashes::Sha3, fh, MaxiPosition::Sha3Maxi));
    assert!(!auto_fork_validation(30, SupportedHashes::Keccak, fh, MaxiPosition::Sha3Maxi));
    assert!(auto_fork_validation(30, SupportedHashes::Keccak, fh, MaxiPosition::KeccakMaxi));
    assert!(!auto_fork_validation(30, SupportedHashes::Sha3, fh, MaxiPosition::KeccakMaxi));
    // The unresolved stance accepts nothing: it must be resolved first.
    assert!(!auto_fork_validation(30, SupportedHashes::Sha3, fh, MaxiPosition::FollowMining));
}

#[test]
fn manual_fork_boundary() {
    assert!(manual_fork_validation(2299, SupportedHashes::Md5));
    assert!(manual_fork_validation(2299, SupportedHashes::Sha3));
    assert!(manual_fork_validation(2299, SupportedHashes::Keccak));
    assert!(!manual_fork_validation(2300, SupportedHashes::Md5));
    assert!(manual_fork_validation(2300, SupportedHashes::Sha3));
    assert!(manual_fork_validation(2300, SupportedHashes::Keccak));
}

fn seal_checker() -> MultiPow {
    MultiPow::new(ForkingConfig::Automatic(all_heights(), MaxiPosition::NoMaxi))
}

fn mine_valid_seal() -> (Compute, Seal, Vec<u8>, Vec<u8>) {
    let c = Compute { difficulty: easy_threshold(), pre_hash: u(4242), nonce: u(7) };
    let seal = c.compute(SupportedHashes::Sha3);
    let raw = encode_seal(&seal);
    let pre_digest = encode_algo(&SupportedHashes::Sha3);
    (c, seal, raw, pre_digest)
}

#[test]
fn verify_accepts_freshly_mined_seal() {
    let (c, _seal, raw, pre_digest) = mine_valid_seal();
    let pow = seal_checker();
    assert!(pow.verify(15, &c.pre_hash, Some(&pre_digest), &raw, c.difficulty));
}

#[test]
fn verify_rejects_missing_or_mismatched_pre_digest() {
    let (c, _seal, raw, _pre_digest) = mine_valid_seal();
    let pow = seal_checker();
    assert!(!pow.verify(15, &c.pre_hash, None, &raw, c.difficulty));
    let wrong = encode_algo(&SupportedHashes::Keccak);
    assert!(!pow.verify(15, &c.pre_hash, Some(&wrong), &raw, c.difficulty));
}

#[test]
fn verify_rejects_disallowed_algorithm() {
    let (c, _seal, raw, pre_digest) = mine_valid_seal();
    let pow = seal_checker();
    // Below the soft fork only MD5 is legal, so an SHA3 seal is rejected.
    assert!(!pow.verify(5, &c.pre_hash, Some(&pre_digest), &raw, c.difficulty));
}

#[test]
fn verify_rejects_insufficient_work() {
    let (c, _seal, raw, pre_digest) = mine_valid_seal();
    let pow = seal_checker();
    assert!(!pow.verify(15, &c.pre_hash, Some(&pre_digest), &raw, impossible_threshold()));
}

#[test]
fn verify_rejects_undecodable_seal() {
    let (c, _seal, _raw, pre_digest) = mine_valid_seal();
    let pow = seal_checker();
    assert!(!pow.verify(15, &c.pre_hash, Some(&pre_digest), &[1u8, 2u8, 3u8], c.difficulty));
}

#[test]
fn verify_rejects_flipped_nonce_bit() {
    let (c, seal, _raw, pre_digest) = mine_valid_seal();
    let pow = seal_checker();
    for bit in [0usize, 1, 63, 127] {
        let mut tampered = seal;
        tampered.nonce.lo ^= 1u128 << bit;
        let raw = encode_seal(&tampered);
        assert!(!pow.verify(15, &c.pre_hash, Some(&pre_digest), &raw, c.difficulty));
        tampered = seal;
        tampered.nonce.hi ^= 1u128 << bit;
        let raw = encode_seal(&tampered);
        assert!(!pow.verify(15, &c.pre_hash, Some(&pre_digest), &raw, c.difficulty));
    }
    // The untampered seal still passes.
    let raw = encode_seal(&seal);
    assert!(pow.verify(15, &c.pre_hash, Some(&pre_digest), &raw, c.difficulty));
}

#[test]
fn verify_rejects_flipped_digest_bit() {
    let (c, seal, _raw, pre_digest) = mine_valid_seal();
    let pow = seal_checker();
    for bit in [0usize, 7, 64, 126] {
        let mut tampered = seal;
        tampered.work.value.lo ^= 1u128 << bit;
        let raw = encode_seal(&tampered);
        assert!(!pow.verify(15, &c.pre_hash, Some(&pre_digest), &raw, c.difficulty));
        tampered = seal;
        tampered.work.value.hi ^= 1u128 << bit;
        let raw = encode_seal(&tampered);
        assert!(!pow.verify(15, &c.pre_hash, Some(&pre_digest), &raw, c.difficulty));
    }
}

#[test]
fn verify_rejects_wrong_pre_hash() {
    let (c, _seal, raw, pre_digest) = mine_valid_seal();
    let pow = seal_checker();
    let other = u(4243);
    assert!(!pow.verify(15, &other, Some(&pre_digest), &raw, c.difficulty));
}

#[test]
fn threshold_increment_accumulates_and_saturates() {
    let mut total = Threshold { md5: u(10), sha3: u(20), keccak: u(30) };
    total.increment(Threshold { md5: u(1), sha3: u(2), keccak: u(3) });
    assert_eq!(total.md5, u(11));
    assert_eq!(total.sha3, u(22));
    assert_eq!(total.keccak, u(33));
    total.increment(Threshold { md5: U256::max(), sha3: u(0), keccak: u(0) });
    assert_eq!(total.md5, U256::max());
    assert_eq!(total.sha3, u(22));
}

#[test]
fn actual_work_extracts_the_tagged_digest() {
    let (_c, seal, raw, _pd) = mine_valid_seal();
    let work = actual_work(&raw).expect("valid seal blob");
    assert_eq!(work.algo, seal.work.algo);
    assert_eq!(work.value, seal.work.value);
    assert!(actual_work(&[0u8; 10]).is_none());
}

#[test]
fn lowering_a_target_keeps_a_passing_digest_passing() {
    // Monotonicity on concrete values: each digest that passes a target
    // also passes every smaller target.
    let digests = [u(0), u(5), U256 { lo: 0, hi: 1 }, U256 { lo: u128::MAX, hi: (1u128 << 127) - 1 }];
    let targets = [u(7), u(2), u(1), u(0)];
    for d in digests {
        for pair in targets.windows(2) {
            if simple_hash_meets_difficulty(&d, pair[0]) {
                assert!(simple_hash_meets_difficulty(&d, pair[1]));
            }
        }
    }
}
