//! One step of the nonce-increment mining search.
//!
//! The search tries nonces from zero upward: compute the puzzle, test the
//! difficulty, and on failure move to the next nonce, wrapping to zero at
//! the top of the 256-bit counter instead of aborting. On success the nonce
//! resets to zero for the next block. The surrounding loop belongs to the
//! host: it refreshes the pre-hash and difficulty from chain state, submits
//! winning seals, and abandons the sweep whenever the metadata changes.

use vstd::prelude::*;

use crate::pow::{
    multi_hash_meets_difficulty, spec_compute, spec_multi_meets, Compute, Seal, SupportedHashes,
    Threshold,
};
use crate::u256::U256;

verus! {

/// The nonce the search tries after a miss at `nonce`: the successor, or
/// zero when the counter reaches its top.
pub open spec fn spec_next_nonce(nonce: U256) -> int {
    if nonce.v() + 1 >= U256::max_value() {
        0
    } else {
        nonce.v() + 1
    }
}

/// One attempt of the mining search: the seal computed at this nonce,
/// whether it meets the difficulty, and the nonce to try next (zero again
/// after a success).
pub fn mine_step(
    algo: SupportedHashes,
    difficulty: Threshold,
    pre_hash: U256,
    nonce: U256,
) -> (r: (Seal, bool, U256))
    ensures
        r.0 == spec_compute(Compute { difficulty, pre_hash, nonce }, algo),
        r.1 == spec_multi_meets(r.0.work, difficulty),
        r.1 ==> r.2.v() == 0,
        !r.1 ==> r.2.v() == spec_next_nonce(nonce),
{
    let compute = Compute { difficulty, pre_hash, nonce };
    let seal = compute.compute(algo);
    if multi_hash_meets_difficulty(&seal.work, difficulty) {
        (seal, true, U256::zero())
    } else {
        proof {
            nonce.lemma_v_bounds();
        }
        let incremented = nonce.saturating_add(U256::from_u128(1));
        let next = if incremented.lo == u128::MAX && incremented.hi == u128::MAX {
            U256::zero()
        } else {
            incremented
        };
        (seal, false, next)
    }
}

} // verus!
