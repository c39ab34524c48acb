//! Fixed-width byte encoding of the consensus values.
//!
//! The seal and the puzzle input cross the network as byte blobs, and every
//! node must produce and read exactly the same bytes: difficulty components
//! and nonces travel as 32 little-endian bytes, hash values as their raw 32
//! bytes (which, read as a number, is a big-endian encoding).

use vstd::prelude::*;
use vstd::arithmetic::div_mod::{
    lemma_div_is_ordered, lemma_fundamental_div_mod, lemma_fundamental_div_mod_converse,
};
use vstd::arithmetic::power2::{lemma2_to64, lemma2_to64_rest, lemma_pow2_adds, pow2};
use vstd::slice::slice_index_get;

use crate::u256::{p128, p256, U256};

verus! {

/// 256^n, the number of byte strings of length `n`.
pub open spec fn pow256(n: nat) -> int
    decreases n,
{
    if n == 0 {
        1
    } else {
        256 * pow256((n - 1) as nat)
    }
}

/// The canonical `n` little-endian bytes of `v`.
pub open spec fn le_bytes_of(v: int, n: nat) -> Seq<u8>
    decreases n,
{
    if n == 0 {
        Seq::empty()
    } else {
        seq![(v % 256) as u8] + le_bytes_of(v / 256, (n - 1) as nat)
    }
}

/// The value of a byte string read as a little-endian number.
pub open spec fn le_val(s: Seq<u8>) -> int
    decreases s.len(),
{
    if s.len() == 0 {
        0
    } else {
        s[0] + 256 * le_val(s.drop_first())
    }
}

proof fn lemma_pow256_is_pow2(n: nat)
    ensures
        pow256(n) == pow2(8 * n),
    decreases n,
{
    if n == 0 {
        lemma2_to64();
    } else {
        lemma_pow256_is_pow2((n - 1) as nat);
        lemma_pow2_adds(8, 8 * (n - 1) as nat);
        lemma2_to64();
    }
}

/// The byte-count constants this crate cares about.
pub proof fn lemma_pow256_vals()
    ensures
        pow256(16) == p128(),
        pow256(32) == p256(),
{
    lemma_pow256_is_pow2(16);
    lemma_pow256_is_pow2(32);
    lemma2_to64();
    lemma2_to64_rest();
    lemma_pow2_adds(64, 64);
    lemma_pow2_adds(128, 128);
    assert((0x1_0000_0000_0000_0000int) * 0x1_0000_0000_0000_0000int == p128())
        by (nonlinear_arith);
    assert(p128() * p128() == p256()) by (nonlinear_arith);
}

pub proof fn lemma_le_bytes_len(v: int, n: nat)
    ensures
        le_bytes_of(v, n).len() == n,
    decreases n,
{
    if n > 0 {
        lemma_le_bytes_len(v / 256, (n - 1) as nat);
    }
}

pub proof fn lemma_le_val_bound(s: Seq<u8>)
    ensures
        0 <= le_val(s) < pow256(s.len()),
    decreases s.len(),
{
    if s.len() > 0 {
        lemma_le_val_bound(s.drop_first());
    }
}

/// Writing a value and reading it back is the identity.
pub proof fn lemma_le_bytes_val(v: int, n: nat)
    requires
        0 <= v < pow256(n),
    ensures
        le_val(le_bytes_of(v, n)) == v,
    decreases n,
{
    if n == 0 {
    } else {
        let p = pow256((n - 1) as nat);
        assert(256 * p - 1 == (p - 1) * 256 + 255);
        lemma_fundamental_div_mod_converse(256 * p - 1, 256, p - 1, 255);
        lemma_div_is_ordered(v, 256 * p - 1, 256);
        lemma_fundamental_div_mod(v, 256);
        lemma_le_val_bound(le_bytes_of(v / 256, (n - 1) as nat));
        lemma_le_bytes_val(v / 256, (n - 1) as nat);
        let s = le_bytes_of(v, n);
        assert(s.drop_first() =~= le_bytes_of(v / 256, (n - 1) as nat));
    }
}

/// Appends the 16 little-endian bytes of `x`.
pub fn push_u128_le(out: &mut Vec<u8>, x: u128)
    ensures
        final(out)@ == old(out)@ + le_bytes_of(x as int, 16),
{
    let ghost base = out@;
    let mut cur: u128 = x;
    let mut k: usize = 0;
    while k < 16
        invariant
            k <= 16,
            out@.len() == base.len() + k,
            out@.subrange(0, base.len() as int) == base,
            le_bytes_of(x as int, 16) =~= out@.subrange(base.len() as int, out@.len() as int)
                + le_bytes_of(cur as int, (16 - k) as nat),
        decreases 16 - k,
    {
        let b: u8 = (cur % 256) as u8;
        let ghost prev = out@;
        out.push(b);
        proof {
            assert(out@.subrange(0, base.len() as int) =~= base);
            assert(out@.subrange(base.len() as int, out@.len() as int) =~= prev.subrange(
                base.len() as int,
                prev.len() as int,
            ) + seq![b]);
            assert(le_bytes_of(cur as int, (16 - k) as nat) == seq![b] + le_bytes_of(
                cur as int / 256,
                (15 - k) as nat,
            ));
            assert(out@.subrange(base.len() as int, out@.len() as int) + le_bytes_of(
                cur as int / 256,
                (15 - k) as nat,
            ) =~= prev.subrange(base.len() as int, prev.len() as int) + le_bytes_of(
                cur as int,
                (16 - k) as nat,
            ));
        }
        cur = cur / 256;
        k = k + 1;
    }
    proof {
        assert(final(out)@ =~= base + final(out)@.subrange(
            base.len() as int,
            final(out)@.len() as int,
        ));
    }
}

/// Reads 16 little-endian bytes starting at `off`.
pub fn read_u128_le(b: &[u8], off: usize) -> (r: u128)
    requires
        off + 16 <= b@.len(),
    ensures
        r as int == le_val(b@.subrange(off as int, off + 16)),
{
    proof {
        lemma_pow256_vals();
    }
    let n = b.len();
    let mut x: u128 = 0;
    let mut i: usize = 16;
    while i > 0
        invariant
            i <= 16,
            n == b@.len(),
            off + 16 <= n,
            x as int == le_val(b@.subrange(off + i, off + 16)),
            x < pow256((16 - i) as nat),
            pow256(16) == p128(),
        decreases i,
    {
        proof {
            lemma_pow256_lte(  (16 - i) as nat, 15 );
        }
        i = i - 1;
        let byte = *slice_index_get(b, off + i);
        proof {
            assert(b@.subrange(off + i, off + 16).drop_first() =~= b@.subrange(
                off + i + 1,
                off + 16,
            ));
            assert(b@.subrange(off + i, off + 16)[0] == byte);
        }
        x = x * 256 + byte as u128;
    }
    proof {
        assert(b@.subrange(off as int, off + 16) =~= b@.subrange(off + 0, off + 16));
    }
    x
}

proof fn lemma_pow256_pos(n: nat)
    ensures
        pow256(n) >= 1,
    decreases n,
{
    if n > 0 {
        lemma_pow256_pos((n - 1) as nat);
    }
}

proof fn lemma_pow256_lte(a: nat, b: nat)
    requires
        a <= b,
    ensures
        pow256(a) <= pow256(b),
        pow256(a) >= 1,
    decreases b,
{
    lemma_pow256_pos(a);
    if a < b {
        lemma_pow256_lte(a, (b - 1) as nat);
    }
}

/// The 32-byte little-endian form of a 256-bit value: low limb first.
pub open spec fn u256_le_bytes(x: U256) -> Seq<u8> {
    le_bytes_of(x.lo as int, 16) + le_bytes_of(x.hi as int, 16)
}

/// The raw bytes of a hash whose numeric reading is `x`: big-endian.
pub open spec fn u256_be_bytes(x: U256) -> Seq<u8> {
    u256_le_bytes(x).reverse()
}

/// The 256-bit value encoded by 32 little-endian bytes.
pub open spec fn u256_from_le(s: Seq<u8>) -> U256 {
    U256 { lo: le_val(s.subrange(0, 16)) as u128, hi: le_val(s.subrange(16, 32)) as u128 }
}

/// The 256-bit value whose raw hash bytes are `s`.
pub open spec fn u256_from_be(s: Seq<u8>) -> U256 {
    u256_from_le(s.reverse())
}

/// Reading back 32 little-endian bytes undoes the encoding.
pub proof fn lemma_u256_le_roundtrip(x: U256)
    ensures
        u256_le_bytes(x).len() == 32,
        u256_from_le(u256_le_bytes(x)) == x,
{
    lemma_pow256_vals();
    lemma_le_bytes_len(x.lo as int, 16);
    lemma_le_bytes_len(x.hi as int, 16);
    lemma_le_bytes_val(x.lo as int, 16);
    lemma_le_bytes_val(x.hi as int, 16);
    assert(u256_le_bytes(x).subrange(0, 16) =~= le_bytes_of(x.lo as int, 16));
    assert(u256_le_bytes(x).subrange(16, 32) =~= le_bytes_of(x.hi as int, 16));
}

/// Reading back the raw hash bytes undoes the encoding.
pub proof fn lemma_u256_be_roundtrip(x: U256)
    ensures
        u256_be_bytes(x).len() == 32,
        u256_from_be(u256_be_bytes(x)) == x,
{
    lemma_u256_le_roundtrip(x);
    assert(u256_be_bytes(x).reverse() =~= u256_le_bytes(x));
}

/// Appends the 32 little-endian bytes of `x`.
pub fn push_u256_le(out: &mut Vec<u8>, x: U256)
    ensures
        final(out)@ == old(out)@ + u256_le_bytes(x),
{
    let ghost base = out@;
    push_u128_le(out, x.lo);
    push_u128_le(out, x.hi);
    proof {
        assert(final(out)@ =~= base + u256_le_bytes(x));
    }
}

/// Appends the 32 raw (big-endian) bytes of the hash value `x`.
pub fn push_u256_be(out: &mut Vec<u8>, x: U256)
    ensures
        final(out)@ == old(out)@ + u256_be_bytes(x),
{
    let ghost base = out@;
    let mut tmp: Vec<u8> = Vec::new();
    push_u128_le(&mut tmp, x.lo);
    push_u128_le(&mut tmp, x.hi);
    proof {
        assert(tmp@ =~= u256_le_bytes(x));
        lemma_u256_le_roundtrip(x);
    }
    let mut k: usize = 0;
    while k < 32
        invariant
            k <= 32,
            tmp@ == u256_le_bytes(x),
            tmp@.len() == 32,
            out@.len() == base.len() + k,
            out@ =~= base + u256_be_bytes(x).subrange(0, k as int),
        decreases 32 - k,
    {
        let b = *slice_index_get(tmp.as_slice(), 31 - k);
        out.push(b);
        proof {
            assert(u256_be_bytes(x)[k as int] == tmp@[31 - k as int]);
            assert(out@ =~= base + u256_be_bytes(x).subrange(0, k + 1));
        }
        k = k + 1;
    }
    proof {
        assert(u256_be_bytes(x).subrange(0, 32) =~= u256_be_bytes(x));
    }
}

/// Reads 32 little-endian bytes starting at `off`.
pub fn read_u256_le(b: &[u8], off: usize) -> (r: U256)
    requires
        off + 32 <= b@.len(),
    ensures
        r == u256_from_le(b@.subrange(off as int, off + 32)),
{
    let n = b.len();
    let lo = read_u128_le(b, off);
    let hi = read_u128_le(b, off + 16);
    proof {
        assert(b@.subrange(off as int, off + 32).subrange(0, 16) =~= b@.subrange(
            off as int,
            off + 16,
        ));
        assert(b@.subrange(off as int, off + 32).subrange(16, 32) =~= b@.subrange(
            off + 16,
            off + 32,
        ));
    }
    U256 { lo, hi }
}

/// Reads 32 raw (big-endian) hash bytes starting at `off`.
pub fn read_u256_be(b: &[u8], off: usize) -> (r: U256)
    requires
        off + 32 <= b@.len(),
    ensures
        r == u256_from_be(b@.subrange(off as int, off + 32)),
{
    let n = b.len();
    let mut tmp: Vec<u8> = Vec::new();
    let mut k: usize = 0;
    while k < 32
        invariant
            k <= 32,
            n == b@.len(),
            off + 32 <= n,
            tmp@.len() == k,
            tmp@ =~= b@.subrange(off as int, off + 32).reverse().subrange(0, k as int),
        decreases 32 - k,
    {
        let byte = *slice_index_get(b, off + 31 - k);
        tmp.push(byte);
        proof {
            assert(b@.subrange(off as int, off + 32).reverse()[k as int] == b@.subrange(
                off as int,
                off + 32,
            )[31 - k as int]);
            assert(tmp@ =~= b@.subrange(off as int, off + 32).reverse().subrange(0, k + 1));
        }
        k = k + 1;
    }
    let lo = read_u128_le(tmp.as_slice(), 0);
    let hi = read_u128_le(tmp.as_slice(), 16);
    proof {
        let rev = b@.subrange(off as int, off + 32).reverse();
        assert(tmp@ =~= rev);
        assert(tmp@.subrange(0, 16) =~= rev.subrange(0, 16));
        assert(tmp@.subrange(16, 32) =~= rev.subrange(16, 32));
    }
    U256 { lo, hi }
}

} // verus!
