use academy_pow::mining::mine_step;
use academy_pow::new_a;
use academy_pow::old_a;
use academy_pow::pow::{Compute, SupportedHashes, Threshold};
use academy_pow::sha3pow;
use academy_pow::u256::U256;

fn u(x: u128) -> U256 {
    U256::from_u128(x)
}

fn easy() -> Threshold {
    Threshold { md5: u(1), sha3: u(1), keccak: u(1) }
}

fn impossible() -> Threshold {
    Threshold { md5: U256::max(), sha3: U256::max(), keccak: U256::max() }
}

#[test]
fn mine_step_success_resets_nonce() {
    let (seal, found, next) = mine_step(SupportedHashes::Sha3, easy(), u(77), u(5));
    assert!(found);
    assert_eq!(next, U256::zero());
    let expected = Compute { difficulty: easy(), pre_hash: u(77), nonce: u(5) }
        .compute(SupportedHashes::Sha3);
    assert_eq!(seal, expected);
}

#[test]
fn mine_step_miss_increments_nonce() {
    let (_seal, found, next) = mine_step(SupportedHashes::Sha3, impossible(), u(77), u(5));
    assert!(!found);
    assert_eq!(next, u(6));
}

#[test]
fn mine_step_nonce_wraps_at_counter_top() {
    // One below the top: the increment reaches the top value, which is
    // never tried; the counter wraps to zero instead.
    let near_top = U256 { lo: u128::MAX - 1, hi: u128::MAX };
    let (_seal, found, next) = mine_step(SupportedHashes::Sha3, impossible(), u(77), near_top);
    assert!(!found);
    assert_eq!(next, U256::zero());
    // At the top itself the counter also wraps to zero.
    let top = U256::max();
    let (_seal, _found, next) = mine_step(SupportedHashes::Sha3, impossible(), u(77), top);
    assert_eq!(next, U256::zero());
}

#[test]
fn mining_loop_finds_verifiable_seal() {
    // A target of two passes whenever the digest's top bit is clear, so on
    // average every other nonce wins and a few steps suffice.
    let threshold = Threshold { md5: u(2), sha3: u(2), keccak: u(2) };
    let pre_hash = u(31337);
    let mut nonce = U256::zero();
    let mut found = None;
    for _ in 0..64 {
        let (seal, ok, next) = mine_step(SupportedHashes::Keccak, threshold, pre_hash, nonce);
        if ok {
            found = Some(seal);
            break;
        }
        nonce = next;
    }
    let seal = found.expect("a seal within 64 nonces under a 50 percent target");
    let raw = academy_pow::pow::encode_seal(&seal);
    let pre_digest = academy_pow::pow::encode_algo(&SupportedHashes::Keccak);
    let pow = academy_pow::pow::MultiPow::new(academy_pow::pow::ForkingConfig::Manual);
    assert!(pow.verify(100, &pre_hash, Some(&pre_digest), &raw, threshold));
}

#[test]
fn sha3_chain_roundtrip_and_tamper() {
    let c = sha3pow::Compute { difficulty: u(1), pre_hash: u(99), nonce: u(3) };
    let seal = c.compute();
    let raw = sha3pow::encode_seal(&seal);
    assert_eq!(raw.len(), 96);
    let verifier = sha3pow::Sha3Algorithm::new();
    assert!(verifier.verify(&u(99), &raw, u(1)));
    // A flipped digest bit breaks the recomputation check.
    let mut tampered = seal;
    tampered.work.lo ^= 1;
    let raw_bad = sha3pow::encode_seal(&tampered);
    assert!(!verifier.verify(&u(99), &raw_bad, u(1)));
    // Too-short blobs and impossible targets are rejected.
    assert!(!verifier.verify(&u(99), &raw[..95], u(1)));
    assert!(!verifier.verify(&u(99), &raw, U256::max()));
}

#[test]
fn sha3_decode_roundtrip() {
    let seal = sha3pow::Seal { difficulty: u(7), work: U256 { lo: 1, hi: 2 }, nonce: u(9) };
    let raw = sha3pow::encode_seal(&seal);
    let decoded = sha3pow::decode_seal(&raw).expect("fresh encoding must decode");
    assert_eq!(decoded, seal);
}

#[test]
fn storage_contract_set_and_get() {
    let mut a = old_a::A::new();
    assert_eq!(a.get_values(), (0, false));
    assert!(a.set_values(42, true).is_ok());
    assert_eq!(a.get_values(), (42, true));
}

#[test]
fn storage_contract_migration_swaps_fields() {
    let mut upgraded = new_a::A { new_state: None, updated_old_state: None };
    assert_eq!(upgraded.get_values(), (false, 0, 0));
    let legacy = old_a::OldState { field_1: 7, field_2: true };
    assert!(upgraded.migrate(Some(legacy)).is_ok());
    assert_eq!(upgraded.get_values(), (true, 7, 0));
}
