use academy_pow::u256::{mul128_wide, U256};
use academy_pow::codec::{push_u256_be, push_u256_le, read_u256_be, read_u256_le};

fn u(x: u128) -> U256 {
    U256::from_u128(x)
}

#[test]
fn wide_multiplication_exact() {
    let r = mul128_wide(u128::MAX, u128::MAX);
    // (2^128 - 1)^2 == 2^256 - 2^129 + 1
    assert_eq!(r.lo, 1);
    assert_eq!(r.hi, u128::MAX - 1);
    let r = mul128_wide(1 << 64, 1 << 64);
    assert_eq!(r.lo, 0);
    assert_eq!(r.hi, 1);
    let r = mul128_wide(1 << 63, 1 << 63);
    assert_eq!(r.lo, 1 << 126);
    assert_eq!(r.hi, 0);
    let r = mul128_wide(1 << 127, 4);
    assert_eq!(r.lo, 0);
    assert_eq!(r.hi, 2);
    let r = mul128_wide(1_000_003, 1_000_033);
    assert_eq!(r.lo, 1_000_036_000_099);
    assert_eq!(r.hi, 0);
}

#[test]
fn saturating_add_carries_and_saturates() {
    let a = U256 { lo: u128::MAX, hi: 0 };
    let b = a.saturating_add(u(1));
    assert_eq!(b, U256 { lo: 0, hi: 1 });
    let m = U256::max();
    assert_eq!(m.saturating_add(u(1)), m);
    let almost = U256 { lo: u128::MAX, hi: u128::MAX - 1 };
    assert_eq!(almost.saturating_add(u(1)), U256 { lo: 0, hi: u128::MAX });
}

#[test]
fn subtraction_borrows() {
    let a = U256 { lo: 0, hi: 1 };
    let b = a.sub(u(1));
    assert_eq!(b, U256 { lo: u128::MAX, hi: 0 });
}

#[test]
fn comparisons_order_by_value() {
    let small = U256 { lo: u128::MAX, hi: 0 };
    let big = U256 { lo: 0, hi: 1 };
    assert!(small.lt(big));
    assert!(!big.lt(small));
    assert!(small.le(small));
    assert_eq!(small.max_with(big), big);
    assert_eq!(small.min_with(big), small);
}

#[test]
fn division_exact_quotient_and_remainder() {
    let n = U256 { lo: 1, hi: 7 };
    // n == 7 * 2^128 + 1; divide by 3: 2^128 == 3 * q128 + 1 pattern.
    let (q, r) = n.div_rem_u128(3);
    // Check by reconstruction: q * 3 + r == n.
    let q3 = q.mul_u128_saturating(3);
    let back = q3.saturating_add(u(r as u128));
    assert_eq!(back, n);
    assert!(r < 3);
    // A divisor of one returns the value itself.
    let (q, r) = n.div_rem_u128(1);
    assert_eq!(q, n);
    assert_eq!(r, 0);
    // Dividing a small value by a big divisor gives zero.
    let (q, r) = u(41).div_rem_u128(100);
    assert_eq!(q, U256::zero());
    assert_eq!(r, 41);
}

#[test]
fn division_known_values() {
    // 300,000,000,000 / 298,333 == 1,005,587 (the steady-state retarget).
    let (q, r) = u(300_000_000_000).div_rem_u128(298_333);
    assert_eq!(q, u(1_005_587));
    assert_eq!(r as u128, 300_000_000_000 - 1_005_587 * 298_333);
}

#[test]
fn saturating_multiplication() {
    let a = U256 { lo: 0, hi: 1 };
    assert_eq!(a.mul_u128_saturating(7), U256 { lo: 0, hi: 7 });
    assert_eq!(U256::max().mul_u128_saturating(2), U256::max());
    assert_eq!(U256::max().mul_u128_saturating(1), U256::max());
    assert_eq!(U256::max().mul_u128_saturating(0), U256::zero());
}

#[test]
fn mul_fits_boundary() {
    let half = U256 { lo: 0, hi: 1u128 << 127 };  // 2^255
    assert!(half.mul_fits(u(1)));
    assert!(!half.mul_fits(u(2)));
    assert!(!U256::max().mul_fits(U256::max()));
    assert!(U256::zero().mul_fits(U256::max()));
}

#[test]
fn byte_codec_roundtrips() {
    let x = U256 { lo: 0x0102_0304_0506_0708_090a_0b0c_0d0e_0f10, hi: 0xfefd_fcfb };
    let mut le: Vec<u8> = Vec::new();
    push_u256_le(&mut le, x);
    assert_eq!(le.len(), 32);
    assert_eq!(le[0], 0x10);
    assert_eq!(read_u256_le(&le, 0), x);
    let mut be: Vec<u8> = Vec::new();
    push_u256_be(&mut be, x);
    assert_eq!(be.len(), 32);
    assert_eq!(be[31], 0x10);
    assert_eq!(read_u256_be(&be, 0), x);
    // The two encodings are byte reversals of each other.
    let reversed: Vec<u8> = le.iter().rev().copied().collect();
    assert_eq!(be, reversed);
}

#[test]
fn hex_reference_encoding() {
    // The numeric value 0x01ff, written little-endian over 32 bytes.
    let x = u(0x01ff);
    let mut le: Vec<u8> = Vec::new();
    push_u256_le(&mut le, x);
    let expected = hex::decode("ff01000000000000000000000000000000000000000000000000000000000000")
        .expect("valid hex");
    assert_eq!(le, expected);
}
