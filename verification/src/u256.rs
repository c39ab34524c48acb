//! A 256-bit unsigned integer built from two `u128` limbs.
//!
//! Difficulty values, hash digests read as numbers, and nonces are all
//! 256-bit quantities in the consensus protocol, so the whole crate rests on
//! this type. Every operation carries an exact contract over `v()`, the
//! mathematical value of the limbs.

use vstd::prelude::*;
use vstd::arithmetic::mul::{
    lemma_mul_inequality, lemma_mul_is_distributive_add_other_way, lemma_mul_upper_bound,
};
use vstd::arithmetic::div_mod::{
    lemma_div_is_ordered, lemma_fundamental_div_mod, lemma_fundamental_div_mod_converse,
};

verus! {

/// 2^64, the split point between the half-limbs of a `u128`.
pub const POW64: u128 = 0x1_0000_0000_0000_0000;

/// 2^127, the highest bit of a `u128`.
pub const POW127: u128 = 0x8000_0000_0000_0000_0000_0000_0000_0000;

/// A 256-bit unsigned integer: `v == hi * 2^128 + lo`.
#[derive(Clone, Copy, PartialEq, Eq, Structural, Debug)]
pub struct U256 {
    pub lo: u128,
    pub hi: u128,
}

/// 2^128 as a mathematical integer.
pub open spec fn p128() -> int {
    0x1_0000_0000_0000_0000_0000_0000_0000_0000int
}

/// 2^256 as a mathematical integer.
pub open spec fn p256() -> int {
    0x1_0000_0000_0000_0000_0000_0000_0000_0000_0000_0000_0000_0000_0000_0000_0000_0000int
}

impl U256 {
    /// The mathematical value of this 256-bit integer.
    pub open spec fn v(self) -> int {
        self.hi * p128() + self.lo
    }

    pub open spec fn max_value() -> int {
        p256() - 1
    }

    /// Every representable value lies in `[0, 2^256)`.
    pub proof fn lemma_v_bounds(self)
        ensures
            0 <= self.v() < p256(),
    {
        assert(self.hi * p128() <= (p128() - 1) * p128()) by {
            lemma_mul_inequality(self.hi as int, p128() - 1, p128());
        }
        assert(self.hi * p128() >= 0) by {
            lemma_mul_inequality(0, self.hi as int, p128());
        }
    }

    pub fn zero() -> (r: U256)
        ensures
            r.v() == 0,
    {
        U256 { lo: 0, hi: 0 }
    }

    pub fn from_u128(x: u128) -> (r: U256)
        ensures
            r.v() == x,
    {
        U256 { lo: x, hi: 0 }
    }

    pub fn max() -> (r: U256)
        ensures
            r.v() == U256::max_value(),
    {
        U256 { lo: u128::MAX, hi: u128::MAX }
    }

    pub fn is_zero(self) -> (r: bool)
        ensures
            r == (self.v() == 0),
    {
        proof {
            self.lemma_v_bounds();
            if self.hi > 0 {
                assert(self.hi * p128() >= 1 * p128()) by {
                    lemma_mul_inequality(1, self.hi as int, p128());
                }
            }
        }
        self.lo == 0 && self.hi == 0
    }

    /// Strict comparison, high limb first.
    pub fn lt(self, other: U256) -> (r: bool)
        ensures
            r == (self.v() < other.v()),
    {
        proof {
            if self.hi < other.hi {
                assert((self.hi + 1) * p128() <= other.hi * p128()) by {
                    lemma_mul_inequality(self.hi + 1, other.hi as int, p128());
                }
                assert(self.hi * p128() + p128() == (self.hi + 1) * p128()) by {
                    lemma_mul_is_distributive_add_other_way(p128(), self.hi as int, 1);
                }
            }
            if other.hi < self.hi {
                assert((other.hi + 1) * p128() <= self.hi * p128()) by {
                    lemma_mul_inequality(other.hi + 1, self.hi as int, p128());
                }
                assert(other.hi * p128() + p128() == (other.hi + 1) * p128()) by {
                    lemma_mul_is_distributive_add_other_way(p128(), other.hi as int, 1);
                }
            }
        }
        if self.hi != other.hi {
            self.hi < other.hi
        } else {
            self.lo < other.lo
        }
    }

    pub fn le(self, other: U256) -> (r: bool)
        ensures
            r == (self.v() <= other.v()),
    {
        !other.lt(self)
    }

    /// The smaller of the two values.
    pub fn min_with(self, other: U256) -> (r: U256)
        ensures
            r.v() == if self.v() <= other.v() { self.v() } else { other.v() },
    {
        if self.le(other) {
            self
        } else {
            other
        }
    }

    /// The larger of the two values.
    pub fn max_with(self, other: U256) -> (r: U256)
        ensures
            r.v() == if self.v() >= other.v() { self.v() } else { other.v() },
    {
        if self.le(other) {
            other
        } else {
            self
        }
    }

    /// Addition that sticks at the largest representable value instead of
    /// wrapping or aborting.
    pub fn saturating_add(self, other: U256) -> (r: U256)
        ensures
            r.v() == if self.v() + other.v() < p256() {
                self.v() + other.v()
            } else {
                U256::max_value()
            },
    {
        proof {
            self.lemma_v_bounds();
            other.lemma_v_bounds();
        }
        let (lo, carry): (u128, u128) = if self.lo > u128::MAX - other.lo {
            ((self.lo - (u128::MAX - other.lo)) - 1, 1)
        } else {
            (self.lo + other.lo, 0)
        };
        if carry == 1 && self.hi >= u128::MAX - other.hi {
            proof {
                assert((self.hi + other.hi + 1) * p128() >= p128() * p128()) by {
                    lemma_mul_inequality(p128(), self.hi + other.hi + 1, p128());
                }
            }
            U256::max()
        } else if carry == 0 && self.hi > u128::MAX - other.hi {
            proof {
                assert((self.hi + other.hi) * p128() >= p128() * p128()) by {
                    lemma_mul_inequality(p128(), self.hi + other.hi as int, p128());
                }
            }
            U256::max()
        } else {
            let hi = self.hi + other.hi + carry;
            proof {
                assert(hi * p128() == self.hi * p128() + other.hi * p128() + carry * p128()) by {
                    lemma_mul_is_distributive_add_other_way(
                        p128(),
                        self.hi + other.hi as int,
                        carry as int,
                    );
                    lemma_mul_is_distributive_add_other_way(
                        p128(),
                        self.hi as int,
                        other.hi as int,
                    );
                }
                assert(hi * p128() <= (p128() - 1) * p128()) by {
                    lemma_mul_inequality(hi as int, p128() - 1, p128());
                }
            }
            U256 { lo, hi }
        }
    }

    /// Subtraction; the caller must know the difference is non-negative.
    pub fn sub(self, other: U256) -> (r: U256)
        requires
            other.v() <= self.v(),
        ensures
            r.v() == self.v() - other.v(),
    {
        proof {
            if self.hi < other.hi {
                assert((self.hi + 1) * p128() <= other.hi * p128()) by {
                    lemma_mul_inequality(self.hi + 1, other.hi as int, p128());
                }
                assert(self.hi * p128() + p128() == (self.hi + 1) * p128()) by {
                    lemma_mul_is_distributive_add_other_way(p128(), self.hi as int, 1);
                }
            }
            if self.hi == other.hi {
            } else {
                assert((other.hi + 1) * p128() <= self.hi * p128()) by {
                    lemma_mul_inequality(other.hi + 1, self.hi as int, p128());
                }
                assert(other.hi * p128() + p128() == (other.hi + 1) * p128()) by {
                    lemma_mul_is_distributive_add_other_way(p128(), other.hi as int, 1);
                }
            }
        }
        if self.lo >= other.lo {
            U256 { lo: self.lo - other.lo, hi: self.hi - other.hi }
        } else {
            U256 { lo: ((u128::MAX - other.lo) + self.lo) + 1, hi: (self.hi - other.hi) - 1 }
        }
    }

    /// Doubling; the caller must know the result still fits.
    pub fn shl1(self) -> (r: U256)
        requires
            2 * self.v() < p256(),
        ensures
            r.v() == 2 * self.v(),
    {
        proof {
            self.lemma_v_bounds();
            if self.hi >= p128() / 2 {
                assert(self.hi * p128() >= (p128() / 2) * p128()) by {
                    lemma_mul_inequality(p128() / 2, self.hi as int, p128());
                }
            }
        }
        let hi = self.hi * 2 + self.lo / (POW127);
        let lo = (self.lo % (POW127)) * 2;
        proof {
            lemma_fundamental_div_mod(self.lo as int, p128() / 2);
        }
        U256 { lo, hi }
    }

    /// Halving, i.e. a right shift by one bit.
    pub fn shr1(self) -> (r: U256)
        ensures
            r.v() == self.v() / 2,
    {
        let hi = self.hi / 2;
        let lo = self.lo / 2 + (self.hi % 2) * (POW127);
        proof {
            lemma_fundamental_div_mod(self.lo as int, 2);
            lemma_fundamental_div_mod(self.hi as int, 2);
            lemma_fundamental_div_mod_converse(
                self.v(),
                2,
                hi as int * p128() + lo,
                (self.lo % 2) as int,
            );
        }
        U256 { lo, hi }
    }

    /// Whether the lowest bit is set.
    pub fn is_odd(self) -> (r: bool)
        ensures
            r == (self.v() % 2 == 1),
    {
        proof {
            lemma_fundamental_div_mod(self.lo as int, 2);
            lemma_fundamental_div_mod(self.hi as int, 2);
            lemma_fundamental_div_mod_converse(
                self.v(),
                2,
                (self.hi as int / 2) * p128() + (self.hi as int % 2) * (POW127 as int)
                    + self.lo as int / 2,
                (self.lo % 2) as int,
            );
        }
        self.lo % 2 == 1
    }
}

/// Full 128 x 128 -> 256 bit multiplication via 64-bit half-limbs.
pub fn mul128_wide(a: u128, b: u128) -> (r: U256)
    ensures
        r.v() == a * b,
{
    let ah = a / POW64;
    let al = a % POW64;
    let bh = b / POW64;
    let bl = b % POW64;
    proof {
        lemma_fundamental_div_mod(a as int, POW64 as int);
        lemma_fundamental_div_mod(b as int, POW64 as int);
        lemma_div_is_ordered(a as int, u128::MAX as int, POW64 as int);
        lemma_div_is_ordered(b as int, u128::MAX as int, POW64 as int);
        lemma_mul_upper_bound(ah as int, POW64 - 1, bh as int, POW64 - 1);
        lemma_mul_upper_bound(ah as int, POW64 - 1, bl as int, POW64 - 1);
        lemma_mul_upper_bound(al as int, POW64 - 1, bh as int, POW64 - 1);
        lemma_mul_upper_bound(al as int, POW64 - 1, bl as int, POW64 - 1);
    }
    let hh = ah * bh;
    let hl = ah * bl;
    let lh = al * bh;
    let ll = al * bl;
    assert(a * b == hh * p128() + (hl + lh) * (POW64 as int) + ll) by (nonlinear_arith)
        requires
            a == ah * POW64 + al,
            b == bh * POW64 + bl,
            hh == ah * bh,
            hl == ah * bl,
            lh == al * bh,
            ll == al * bl,
            p128() == POW64 as int * POW64 as int,
    ;
    proof {
        lemma_div_is_ordered(ll as int, u128::MAX as int, POW64 as int);
        lemma_div_is_ordered(
            hl as int,
            (POW64 - 1) as int * (POW64 - 1) as int,
            POW64 as int,
        );
        lemma_div_is_ordered(
            lh as int,
            (POW64 - 1) as int * (POW64 - 1) as int,
            POW64 as int,
        );
    }
    let mid = ll / POW64 + hl % POW64 + lh % POW64;
    proof {
        lemma_div_is_ordered(mid as int, 3 * (POW64 - 1) as int, POW64 as int);
    }
    let lo = (mid % POW64) * POW64 + ll % POW64;
    let hi = hh + hl / POW64 + lh / POW64 + mid / POW64;
    proof {
        lemma_fundamental_div_mod(ll as int, POW64 as int);
        lemma_fundamental_div_mod(hl as int, POW64 as int);
        lemma_fundamental_div_mod(lh as int, POW64 as int);
        lemma_fundamental_div_mod(mid as int, POW64 as int);
    }
    U256 { lo, hi }
}

} // verus!

// The division below works bit by bit, most significant first, so it needs
// the bit decomposition of a 256-bit value and a handful of facts about it.

use vstd::arithmetic::power2::{lemma2_to64, lemma2_to64_rest, lemma_pow2_adds, pow2};

verus! {

/// The value of the bit string `s[i..]`, with `s[i]` as its least
/// significant bit.
pub open spec fn top_val(s: Seq<bool>, i: int) -> int
    decreases s.len() - i,
{
    if i < 0 || i >= s.len() {
        0
    } else {
        (if s[i] { 1int } else { 0 }) + 2 * top_val(s, i + 1)
    }
}

proof fn lemma_top_val_bound(s: Seq<bool>, i: int)
    requires
        0 <= i <= s.len(),
    ensures
        0 <= top_val(s, i) < pow2((s.len() - i) as nat),
    decreases s.len() - i,
{
    if i == s.len() {
        assert(pow2(0) == 1) by {
            lemma2_to64();
        }
    } else {
        lemma_top_val_bound(s, i + 1);
        assert(pow2((s.len() - i) as nat) == 2 * pow2((s.len() - i - 1) as nat)) by {
            vstd::arithmetic::power2::lemma_pow2_unfold((s.len() - i) as nat);
        }
    }
}

proof fn lemma_top_val_push(s: Seq<bool>, b: bool, i: int)
    requires
        0 <= i <= s.len(),
    ensures
        top_val(s.push(b), i) == top_val(s, i) + (if b { 1int } else { 0 }) * pow2(
            (s.len() - i) as nat,
        ),
    decreases s.len() - i,
{
    if i == s.len() {
        assert(pow2(0) == 1) by {
            lemma2_to64();
        }
        assert(top_val(s.push(b), i + 1) == 0);
        assert(top_val(s.push(b), i) == (if b { 1int } else { 0 }));
    } else {
        lemma_top_val_push(s, b, i + 1);
        assert(s.push(b)[i] == s[i]);
        assert(pow2((s.len() - i) as nat) == 2 * pow2((s.len() - i - 1) as nat)) by {
            vstd::arithmetic::power2::lemma_pow2_unfold((s.len() - i) as nat);
        }
    }
}

/// 2^128 and 2^256 as powers of two.
proof fn lemma_pow2_128_256()
    ensures
        pow2(128) == p128(),
        pow2(256) == p256(),
{
    lemma2_to64();
    lemma2_to64_rest();
    lemma_pow2_adds(64, 64);
    lemma_pow2_adds(128, 128);
    assert((0x1_0000_0000_0000_0000int) * 0x1_0000_0000_0000_0000int == p128())
        by (nonlinear_arith);
    assert(p128() * p128() == p256()) by (nonlinear_arith);
}

/// `(2q + c) * d == 2(qd) + cd`: the one ring identity the division loop needs.
proof fn lemma_double_mul(q: int, c: int, d: int)
    by (nonlinear_arith)
    ensures
        (2 * q + c) * d == 2 * (q * d) + c * d,
{
}

impl U256 {
    /// The bits of this value, least significant first, as 256 booleans.
    fn bits(self) -> (r: Vec<bool>)
        ensures
            r@.len() == 256,
            top_val(r@, 0) == self.v(),
    {
        let mut bits: Vec<bool> = Vec::new();
        let mut cur = self;
        proof {
            lemma2_to64();
        }
        while bits.len() < 256
            invariant
                bits@.len() <= 256,
                self.v() == top_val(bits@, 0) + cur.v() * pow2(bits@.len() as nat),
                0 <= cur.v(),
            decreases 256 - bits.len(),
        {
            let b = cur.is_odd();
            let next = cur.shr1();
            proof {
                lemma_top_val_push(bits@, b, 0);
                lemma_fundamental_div_mod(cur.v(), 2);
                assert(cur.v() % 2 == (if b { 1int } else { 0 }));
                assert(cur.v() * pow2(bits@.len() as nat) == next.v() * pow2(
                    (bits@.len() + 1) as nat,
                ) + (if b { 1int } else { 0 }) * pow2(bits@.len() as nat)) by {
                    assert(pow2((bits@.len() + 1) as nat) == 2 * pow2(bits@.len() as nat)) by {
                        vstd::arithmetic::power2::lemma_pow2_unfold((bits@.len() + 1) as nat);
                    }
                    lemma_double_mul(next.v(), (if b { 1int } else { 0 }), pow2(bits@.len() as nat) as int);
                    assert(next.v() * (2 * pow2(bits@.len() as nat)) == 2 * (next.v() * pow2(bits@.len() as nat)))
                        by (nonlinear_arith);
                }
            }
            bits.push(b);
            cur = next;
        }
        proof {
            lemma_pow2_128_256();
            self.lemma_v_bounds();
            lemma_top_val_bound(bits@, 0);
            if cur.v() >= 1 {
                assert(cur.v() * pow2(256) >= 1 * pow2(256)) by {
                    lemma_mul_inequality(1, cur.v(), pow2(256) as int);
                }
            }
        }
        bits
    }

    /// Quotient and remainder of division by a 128-bit divisor.
    pub fn div_rem_u128(self, d: u128) -> (r: (U256, u128))
        requires
            d >= 1,
        ensures
            r.0.v() == self.v() / d as int,
            r.1 as int == self.v() % d as int,
    {
        let bits = self.bits();
        let dd = U256::from_u128(d);
        let one = U256::from_u128(1);
        let mut q = U256::zero();
        let mut rem = U256::zero();
        let mut i: usize = 256;
        proof {
            lemma_pow2_128_256();
        }
        while i > 0
            invariant
                i <= 256,
                bits@.len() == 256,
                dd.v() == d,
                one.v() == 1,
                1 <= d,
                top_val(bits@, i as int) == q.v() * d + rem.v(),
                0 <= rem.v() < d,
                0 <= q.v() <= top_val(bits@, i as int),
            decreases i,
        {
            proof {
                lemma_top_val_bound(bits@, i - 1);
                lemma_top_val_bound(bits@, i as int);
                lemma_pow2_128_256();
                assert(pow2((256 - i + 1) as nat) <= pow2(256)) by {
                    if i > 1 {
                        vstd::arithmetic::power2::lemma_pow2_strictly_increases(
                            (256 - i + 1) as nat,
                            256,
                        );
                    }
                }
            }
            i = i - 1;
            let b = *bits.get(i).unwrap();
            let ghost old_q = q;
            let ghost old_rem = rem;
            q = q.shl1();
            rem = rem.shl1();
            if b {
                rem = rem.saturating_add(one);
            }
            if !rem.lt(dd) {
                rem = rem.sub(dd);
                q = q.saturating_add(one);
                proof {
                    lemma_double_mul(old_q.v(), 1, d as int);
                }
            } else {
                proof {
                    lemma_double_mul(old_q.v(), 0, d as int);
                }
            }
            proof {
                assert(q.v() <= top_val(bits@, i as int)) by (nonlinear_arith)
                    requires
                        top_val(bits@, i as int) == q.v() * d + rem.v(),
                        0 <= rem.v(),
                        1 <= d as int,
                        0 <= q.v(),
                ;
            }
        }
        proof {
            lemma_fundamental_div_mod_converse(self.v(), d as int, q.v(), rem.v());
        }
        (q, rem.lo)
    }

    /// Multiplication by a 128-bit factor, sticking at the largest
    /// representable value on overflow.
    pub fn mul_u128_saturating(self, t: u128) -> (r: U256)
        ensures
            r.v() == if self.v() * t < p256() {
                self.v() * t
            } else {
                U256::max_value()
            },
    {
        let low = mul128_wide(self.lo, t);
        let high = mul128_wide(self.hi, t);
        assert(self.v() * t == (high.v()) * p128() + low.v()) by (nonlinear_arith)
            requires
                high.v() == self.hi as int * t,
                low.v() == self.lo as int * t,
                self.v() == self.hi as int * p128() + self.lo,
        ;
        proof {
            low.lemma_v_bounds();
            high.lemma_v_bounds();
        }
        if high.hi > 0 {
            proof {
                assert(high.hi * p128() >= 1 * p128()) by {
                    lemma_mul_inequality(1, high.hi as int, p128());
                }
                assert(high.v() * p128() >= p128() * p128()) by {
                    lemma_mul_inequality(p128(), high.v(), p128());
                }
            }
            U256::max()
        } else if high.lo > u128::MAX - low.hi {
            proof {
                assert((high.lo + low.hi) * p128() >= p128() * p128()) by {
                    lemma_mul_inequality(p128(), high.lo + low.hi as int, p128());
                }
                assert(high.v() * p128() == high.lo * p128()) ;
                assert(low.hi * p128() + high.lo * p128() == (high.lo + low.hi) * p128()) by {
                    lemma_mul_is_distributive_add_other_way(p128(), high.lo as int, low.hi as int);
                }
            }
            U256::max()
        } else {
            let r = U256 { lo: low.lo, hi: high.lo + low.hi };
            proof {
                r.lemma_v_bounds();
                assert((high.lo + low.hi) * p128() == high.lo * p128() + low.hi * p128()) by {
                    lemma_mul_is_distributive_add_other_way(p128(), high.lo as int, low.hi as int);
                }
            }
            r
        }
    }

    /// Whether the full product of the two values still fits in 256 bits.
    /// This is the heart of the proof-of-work difficulty test.
    pub fn mul_fits(self, other: U256) -> (r: bool)
        ensures
            r == (self.v() * other.v() < p256()),
    {
        if self.hi == 0 {
            let r = other.mul_fits_128(self.lo);
            proof {
                vstd::arithmetic::mul::lemma_mul_is_commutative(other.v(), self.v());
            }
            r
        } else if other.hi == 0 {
            self.mul_fits_128(other.lo)
        } else {
            proof {
                self.lemma_v_bounds();
                other.lemma_v_bounds();
                assert(self.hi * p128() >= 1 * p128()) by {
                    lemma_mul_inequality(1, self.hi as int, p128());
                }
                assert(other.hi * p128() >= 1 * p128()) by {
                    lemma_mul_inequality(1, other.hi as int, p128());
                }
                assert(self.v() * other.v() >= p128() * other.v()) by {
                    lemma_mul_inequality(p128(), self.v(), other.v());
                }
                assert(p128() * other.v() >= p128() * p128()) by {
                    lemma_mul_inequality(p128(), other.v(), p128());
                    vstd::arithmetic::mul::lemma_mul_is_commutative(p128(), other.v());
                }
                assert(p128() * p128() == p256()) by (nonlinear_arith);
            }
            false
        }
    }

    /// Whether `self * t` fits in 256 bits, for a 128-bit factor.
    fn mul_fits_128(self, t: u128) -> (r: bool)
        ensures
            r == (self.v() * t < p256()),
    {
        let low = mul128_wide(self.lo, t);
        let cross = mul128_wide(self.hi, t);
        assert(self.v() * t == cross.v() * p128() + low.v()) by (nonlinear_arith)
            requires
                cross.v() == self.hi as int * t,
                low.v() == self.lo as int * t,
                self.v() == self.hi as int * p128() + self.lo,
        ;
        proof {
            low.lemma_v_bounds();
            cross.lemma_v_bounds();
            if cross.hi > 0 {
                assert(cross.hi * p128() >= 1 * p128()) by {
                    lemma_mul_inequality(1, cross.hi as int, p128());
                }
                assert(cross.v() * p128() >= p128() * p128()) by {
                    lemma_mul_inequality(p128(), cross.v(), p128());
                }
            } else {
                assert(cross.v() == cross.lo);
                if cross.lo > u128::MAX - low.hi {
                    assert((cross.lo + low.hi) * p128() >= p128() * p128()) by {
                        lemma_mul_inequality(p128(), cross.lo + low.hi as int, p128());
                    }
                    assert(cross.lo * p128() + low.hi * p128() == (cross.lo + low.hi) * p128()) by {
                        lemma_mul_is_distributive_add_other_way(
                            p128(),
                            cross.lo as int,
                            low.hi as int,
                        );
                    }
                } else {
                    assert((cross.lo + low.hi) * p128() <= (p128() - 1) * p128()) by {
                        lemma_mul_inequality(cross.lo + low.hi as int, p128() - 1, p128());
                    }
                    assert(cross.lo * p128() + low.hi * p128() == (cross.lo + low.hi) * p128()) by {
                        lemma_mul_is_distributive_add_other_way(
                            p128(),
                            cross.lo as int,
                            low.hi as int,
                        );
                    }
                }
            }
        }
        cross.hi == 0 && cross.lo <= u128::MAX - low.hi
    }
}

} // verus!
