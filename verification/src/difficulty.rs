//! The windowed difficulty-adjustment control loop.
//!
//! Once per finalized block, each per-algorithm instance shifts its 60-slot
//! history window, appends the block's difficulty and timestamp, and
//! retargets: the observed time deltas are damped toward the goal, clamped
//! to a factor of it, and the summed difficulty is rescaled by the ratio of
//! target time to adjusted time, bounded to the configured range. Every sum
//! and product saturates instead of aborting: this code runs inside block
//! finalization and must never stop chain progress.

use vstd::prelude::*;
use vstd::arithmetic::div_mod::{lemma_div_by_self, lemma_div_is_ordered};
use vstd::arithmetic::mul::{lemma_mul_inequality, lemma_mul_is_distributive_add_other_way, lemma_mul_upper_bound};

use crate::pow::{SupportedHashes, Threshold};
use crate::u256::{p256, U256};

verus! {

/// How many past blocks the retargeting window holds.
pub const DIFFICULTY_ADJUST_WINDOW: usize = 60;

/// One filled slot of the history window.
#[derive(Clone, Copy, PartialEq, Eq, Structural, Debug)]
pub struct DifficultyAndTimestamp {
    pub difficulty: U256,
    pub timestamp: u64,
}

/// The retargeting parameters, fixed at chain-spec time.
#[derive(Clone, Copy, PartialEq, Eq, Structural, Debug)]
pub struct AdjusterConfig {
    /// The block interval, in milliseconds, the loop tries to hold.
    pub target_block_time: u128,
    /// How strongly observed deltas are pulled toward the goal.
    pub damp_factor: u128,
    /// The multiplicative band around the goal the adjusted time stays in.
    pub clamp_factor: u128,
    /// The floor for retargeted difficulty; keeping it at the damp factor
    /// avoids stalling at very low difficulty.
    pub min_difficulty: u128,
    /// The ceiling for retargeted difficulty.
    pub max_difficulty: u128,
}

impl AdjusterConfig {
    /// A sane configuration: positive factors small enough that none of the
    /// time-side arithmetic can overflow, and an ordered difficulty range.
    /// A node must refuse to start on a configuration that fails this.
    pub open spec fn wf(self) -> bool {
        &&& 1 <= self.target_block_time <= 0xffff_ffff_ffff_ffff
        &&& 1 <= self.damp_factor <= 0xffff_ffff
        &&& 1 <= self.clamp_factor <= 0xffff_ffff
        &&& 1 <= self.min_difficulty
        &&& self.min_difficulty <= self.max_difficulty
    }

    /// The startup check for the well-formedness condition.
    pub fn is_valid(&self) -> (r: bool)
        ensures
            r == self.wf(),
    {
        1 <= self.target_block_time && self.target_block_time <= 0xffff_ffff_ffff_ffff
            && 1 <= self.damp_factor && self.damp_factor <= 0xffff_ffff
            && 1 <= self.clamp_factor && self.clamp_factor <= 0xffff_ffff
            && 1 <= self.min_difficulty && self.min_difficulty <= self.max_difficulty
    }
}

/// Linear movement of `actual` toward `goal` by the damping factor.
pub open spec fn spec_damp(actual: int, goal: int, damp_factor: int) -> int {
    (actual + (damp_factor - 1) * goal) / damp_factor
}

/// Move value linearly toward a goal.
pub fn damp(actual: u128, goal: u128, damp_factor: u128) -> (r: u128)
    requires
        1 <= damp_factor,
        actual + (damp_factor - 1) * goal <= u128::MAX,
    ensures
        r as int == spec_damp(actual as int, goal as int, damp_factor as int),
{
    (actual + (damp_factor - 1) * goal) / damp_factor
}

/// `actual` bounded to within the clamping factor of `goal`.
pub open spec fn spec_clamp(actual: int, goal: int, clamp_factor: int) -> int {
    let upper = if actual <= goal * clamp_factor {
        actual
    } else {
        goal * clamp_factor
    };
    if goal / clamp_factor >= upper {
        goal / clamp_factor
    } else {
        upper
    }
}

/// Limit value to be within some factor from a goal.
pub fn clamp(actual: u128, goal: u128, clamp_factor: u128) -> (r: u128)
    requires
        1 <= clamp_factor,
        goal * clamp_factor <= u128::MAX,
    ensures
        r as int == spec_clamp(actual as int, goal as int, clamp_factor as int),
{
    let upper = if actual <= goal * clamp_factor {
        actual
    } else {
        goal * clamp_factor
    };
    let lower = goal / clamp_factor;
    if lower >= upper {
        lower
    } else {
        upper
    }
}

/// The observed interval of one window pair: the timestamp difference where
/// both slots are filled (never below zero), the target time where the
/// window is still warming up.
pub open spec fn pair_delta(
    prev: Option<DifficultyAndTimestamp>,
    cur: Option<DifficultyAndTimestamp>,
    target: int,
) -> int {
    match (prev, cur) {
        (Option::Some(p), Option::Some(c)) => if c.timestamp >= p.timestamp {
            c.timestamp - p.timestamp
        } else {
            0
        },
        _ => target,
    }
}

/// The summed intervals of the first `i` slots' consecutive pairs.
pub open spec fn spec_deltas(
    w: Seq<Option<DifficultyAndTimestamp>>,
    target: int,
    i: int,
) -> int
    decreases i,
{
    if i <= 1 {
        0
    } else {
        spec_deltas(w, target, i - 1) + pair_delta(w[i - 2], w[i - 1], target)
    }
}

/// The summed difficulties of the first `i` slots, with the chain's initial
/// difficulty standing in for empty slots.
pub open spec fn spec_diff_sum(
    w: Seq<Option<DifficultyAndTimestamp>>,
    initial: U256,
    i: int,
) -> int
    decreases i,
{
    if i <= 0 {
        0
    } else {
        spec_diff_sum(w, initial, i - 1) + (match w[i - 1] {
            Option::Some(d) => d.difficulty.v(),
            Option::None => initial.v(),
        })
    }
}

/// The retargeted difficulty for a freshly shifted window: deltas floored
/// at one, the difficulty sum saturated at 2^256 - 1 and floored at the
/// minimum, the adjusted time damped and clamped, and the rescaled result
/// bounded to the configured range.
pub open spec fn spec_next_difficulty(
    w: Seq<Option<DifficultyAndTimestamp>>,
    initial: U256,
    cfg: AdjusterConfig,
) -> int {
    let raw_delta = spec_deltas(w, cfg.target_block_time as int, DIFFICULTY_ADJUST_WINDOW as int);
    let ts_delta = if raw_delta == 0 {
        1
    } else {
        raw_delta
    };
    let raw_sum = spec_diff_sum(w, initial, DIFFICULTY_ADJUST_WINDOW as int);
    let capped_sum = if raw_sum < p256() {
        raw_sum
    } else {
        p256() - 1
    };
    let diff_sum = if capped_sum < cfg.min_difficulty {
        cfg.min_difficulty as int
    } else {
        capped_sum
    };
    let adjustment_window = DIFFICULTY_ADJUST_WINDOW * cfg.target_block_time;
    let adj_ts = spec_clamp(
        spec_damp(ts_delta, adjustment_window as int, cfg.damp_factor as int),
        adjustment_window as int,
        cfg.clamp_factor as int,
    );
    let scaled = diff_sum * cfg.target_block_time;
    let scaled_sat = if scaled < p256() {
        scaled
    } else {
        p256() - 1
    };
    let q = scaled_sat / adj_ts;
    let floored = if q < cfg.min_difficulty {
        cfg.min_difficulty as int
    } else {
        q
    };
    if floored > cfg.max_difficulty {
        cfg.max_difficulty as int
    } else {
        floored
    }
}

/// Whatever the window holds, the retargeted difficulty stays within the
/// configured bounds: extreme timestamp histories cannot push it outside.
pub proof fn lemma_next_difficulty_bounded(
    w: Seq<Option<DifficultyAndTimestamp>>,
    initial: U256,
    cfg: AdjusterConfig,
)
    requires
        cfg.wf(),
    ensures
        cfg.min_difficulty <= spec_next_difficulty(w, initial, cfg) <= cfg.max_difficulty,
{
}

/// One per-algorithm instance of the difficulty-adjustment state machine.
pub struct DifficultyAdjuster {
    /// The algorithm whose blocks this instance watches.
    pub algo: SupportedHashes,
    pub config: AdjusterConfig,
    /// Past difficulties and timestamps, oldest first; always 60 slots.
    pub window: Vec<Option<DifficultyAndTimestamp>>,
    /// The difficulty required of the next block.
    pub current: U256,
    /// The chain's initial difficulty, standing in for empty slots.
    pub initial: U256,
}

impl DifficultyAdjuster {
    pub open spec fn wf(self) -> bool {
        self.window@.len() == DIFFICULTY_ADJUST_WINDOW && self.config.wf()
    }

    /// A fresh instance at genesis: an empty window and the configured
    /// initial difficulty.
    pub fn new(algo: SupportedHashes, config: AdjusterConfig, initial_difficulty: U256) -> (r:
        Self)
        requires
            config.wf(),
        ensures
            r.wf(),
            r.algo == algo,
            r.config == config,
            r.current == initial_difficulty,
            r.initial == initial_difficulty,
            forall|k: int|
                0 <= k < DIFFICULTY_ADJUST_WINDOW ==> (#[trigger] r.window@[k]) matches Option::None,
    {
        let mut window: Vec<Option<DifficultyAndTimestamp>> = Vec::new();
        let mut k: usize = 0;
        while k < DIFFICULTY_ADJUST_WINDOW
            invariant
                k <= DIFFICULTY_ADJUST_WINDOW,
                window@.len() == k,
                forall|j: int| 0 <= j < k ==> (#[trigger] window@[j]) matches Option::None,
            decreases DIFFICULTY_ADJUST_WINDOW - k,
        {
            window.push(None);
            k = k + 1;
        }
        DifficultyAdjuster {
            algo,
            config,
            window,
            current: initial_difficulty,
            initial: initial_difficulty,
        }
    }

    /// The difficulty required of the next block of this algorithm.
    pub fn difficulty(&self) -> (r: U256)
        ensures
            r == self.current,
    {
        self.current
    }

    /// Advance the state machine for one finalized block. A block of
    /// another algorithm is not relevant and changes nothing; a relevant
    /// block shifts the window, appends the current difficulty with its
    /// timestamp, and retargets.
    pub fn on_block_finalized(&mut self, block_algo: SupportedHashes, now: u64)
        requires
            old(self).wf(),
        ensures
            final(self).wf(),
            final(self).algo == old(self).algo,
            final(self).config == old(self).config,
            final(self).initial == old(self).initial,
            block_algo != old(self).algo ==> *final(self) == *old(self),
            block_algo == old(self).algo ==> final(self).window@ == old(self).window@.subrange(
                1,
                DIFFICULTY_ADJUST_WINDOW as int,
            ).push(
                Some(
                    DifficultyAndTimestamp { difficulty: old(self).current, timestamp: now },
                ),
            ),
            block_algo == old(self).algo ==> final(self).current.v() == spec_next_difficulty(
                final(self).window@,
                old(self).initial,
                old(self).config,
            ),
    {
        let relevant = match (block_algo, self.algo) {
            (SupportedHashes::Md5, SupportedHashes::Md5) => true,
            (SupportedHashes::Sha3, SupportedHashes::Sha3) => true,
            (SupportedHashes::Keccak, SupportedHashes::Keccak) => true,
            _ => false,
        };
        if !relevant {
            return ;
        }
        let ghost old_w = self.window@;
        // Shift the window left by one slot.
        let mut i: usize = 1;
        while i < DIFFICULTY_ADJUST_WINDOW
            invariant
                1 <= i <= DIFFICULTY_ADJUST_WINDOW,
                self.window@.len() == DIFFICULTY_ADJUST_WINDOW,
                old_w.len() == DIFFICULTY_ADJUST_WINDOW,
                self.config == old(self).config,
                self.algo == old(self).algo,
                self.current == old(self).current,
                self.initial == old(self).initial,
                old(self).config.wf(),
                forall|k: int| 0 <= k < i - 1 ==> #[trigger] self.window@[k] == old_w[k + 1],
                forall|k: int|
                    i - 1 <= k < DIFFICULTY_ADJUST_WINDOW ==> #[trigger] self.window@[k]
                        == old_w[k],
            decreases DIFFICULTY_ADJUST_WINDOW - i,
        {
            let moved = self.window[i];
            self.window.set(i - 1, moved);
            i = i + 1;
        }
        let entry = Some(DifficultyAndTimestamp { difficulty: self.current, timestamp: now });
        self.window.set(DIFFICULTY_ADJUST_WINDOW - 1, entry);
        proof {
            assert(self.window@ =~= old_w.subrange(1, DIFFICULTY_ADJUST_WINDOW as int).push(
                entry,
            ));
        }
        let new_difficulty = retarget(&self.window, self.initial, self.config);
        self.current = new_difficulty;
    }
}

/// Compute the retargeted difficulty over a full window.
pub fn retarget(
    window: &Vec<Option<DifficultyAndTimestamp>>,
    initial: U256,
    config: AdjusterConfig,
) -> (r: U256)
    requires
        window@.len() == DIFFICULTY_ADJUST_WINDOW,
        config.wf(),
    ensures
        r.v() == spec_next_difficulty(window@, initial, config),
{
    let target = config.target_block_time;
    // Sum the observed intervals, substituting the target where slots are
    // still empty.
    let mut ts_delta: u128 = 0;
    let mut j: usize = 1;
    while j < DIFFICULTY_ADJUST_WINDOW
        invariant
            1 <= j <= DIFFICULTY_ADJUST_WINDOW,
            window@.len() == DIFFICULTY_ADJUST_WINDOW,
            config.wf(),
            target == config.target_block_time,
            ts_delta as int == spec_deltas(window@, target as int, j as int),
            ts_delta <= (j - 1) * 0x1_0000_0000_0000_0000,
        decreases DIFFICULTY_ADJUST_WINDOW - j,
    {
        let prev = window[j - 1];
        let cur = window[j];
        let delta: u128 = match (prev, cur) {
            (Some(p), Some(c)) => if c.timestamp >= p.timestamp {
                (c.timestamp - p.timestamp) as u128
            } else {
                0
            },
            _ => target,
        };
        ts_delta = ts_delta + delta;
        j = j + 1;
    }
    if ts_delta == 0 {
        ts_delta = 1;
    }
    // Sum the window difficulties, substituting the initial difficulty for
    // empty slots; the sum saturates rather than aborting.
    let mut diff_sum = U256::zero();
    let mut k: usize = 0;
    while k < DIFFICULTY_ADJUST_WINDOW
        invariant
            k <= DIFFICULTY_ADJUST_WINDOW,
            window@.len() == DIFFICULTY_ADJUST_WINDOW,
            0 <= spec_diff_sum(window@, initial, k as int),
            diff_sum.v() == if spec_diff_sum(window@, initial, k as int) < p256() {
                spec_diff_sum(window@, initial, k as int)
            } else {
                p256() - 1
            },
        decreases DIFFICULTY_ADJUST_WINDOW - k,
    {
        let d = match window[k] {
            Some(x) => x.difficulty,
            None => initial,
        };
        proof {
            d.lemma_v_bounds();
        }
        diff_sum = diff_sum.saturating_add(d);
        k = k + 1;
    }
    let min_d = U256::from_u128(config.min_difficulty);
    let diff_sum = diff_sum.max_with(min_d);
    // Damp and clamp the observed time toward the goal interval.
    proof {
        assert(DIFFICULTY_ADJUST_WINDOW == 60);
    }
    let adjustment_window: u128 = 60 * target;
    proof {
        assert(adjustment_window as int == DIFFICULTY_ADJUST_WINDOW * config.target_block_time);
        lemma_mul_upper_bound(
            config.damp_factor - 1,
            0xffff_fffe,
            adjustment_window as int,
            0x3c_0000_0000_0000_0000,
        );
        lemma_mul_upper_bound(
            adjustment_window as int,
            0x3c_0000_0000_0000_0000,
            config.clamp_factor as int,
            0xffff_ffff,
        );
    }
    let damped = damp(ts_delta, adjustment_window, config.damp_factor);
    let adj_ts = clamp(damped, adjustment_window, config.clamp_factor);
    proof {
        lemma_adjusted_time_positive(
            ts_delta as int,
            adjustment_window as int,
            config.damp_factor as int,
            config.clamp_factor as int,
        );
    }
    // Rescale the difficulty sum and bound it to the configured range.
    let scaled = diff_sum.mul_u128_saturating(target);
    let (q, _rem) = scaled.div_rem_u128(adj_ts);
    let max_d = U256::from_u128(config.max_difficulty);
    max_d.min_with(min_d.max_with(q))
}

/// The damped and clamped window time is at least one, so the rescaling
/// division is always defined.
proof fn lemma_adjusted_time_positive(ts_delta: int, goal: int, df: int, cf: int)
    requires
        1 <= ts_delta,
        60 <= goal,
        1 <= df,
        1 <= cf,
    ensures
        1 <= spec_clamp(spec_damp(ts_delta, goal, df), goal, cf),
{
    assert((df - 1) * goal >= (df - 1) * 1) by {
        lemma_mul_inequality(1, goal, df - 1);
        vstd::arithmetic::mul::lemma_mul_is_commutative(df - 1, goal);
        vstd::arithmetic::mul::lemma_mul_is_commutative(df - 1, 1);
    }
    assert(ts_delta + (df - 1) * goal >= df);
    assert(spec_damp(ts_delta, goal, df) >= 1) by {
        lemma_div_is_ordered(df, ts_delta + (df - 1) * goal, df);
        lemma_div_by_self(df);
    }
    assert(goal * cf >= goal * 1) by {
        lemma_mul_inequality(1, cf, goal);
        vstd::arithmetic::mul::lemma_mul_is_commutative(goal, cf);
        vstd::arithmetic::mul::lemma_mul_is_commutative(goal, 1);
    }
}

/// The three per-algorithm instances the chain runs side by side, and the
/// threshold vector they publish to the seal verifier.
pub struct DifficultyAdjusters {
    pub md5: DifficultyAdjuster,
    pub sha3: DifficultyAdjuster,
    pub keccak: DifficultyAdjuster,
}

impl DifficultyAdjusters {
    pub open spec fn wf(self) -> bool {
        &&& self.md5.wf() && self.md5.algo == SupportedHashes::Md5
        &&& self.sha3.wf() && self.sha3.algo == SupportedHashes::Sha3
        &&& self.keccak.wf() && self.keccak.algo == SupportedHashes::Keccak
    }

    pub fn new(config: AdjusterConfig, initial_difficulty: U256) -> (r: Self)
        requires
            config.wf(),
        ensures
            r.wf(),
            r.md5.current == initial_difficulty,
            r.sha3.current == initial_difficulty,
            r.keccak.current == initial_difficulty,
            r.md5.initial == initial_difficulty,
            r.sha3.initial == initial_difficulty,
            r.keccak.initial == initial_difficulty,
            r.md5.config == config,
            r.sha3.config == config,
            r.keccak.config == config,
            forall|k: int|
                0 <= k < DIFFICULTY_ADJUST_WINDOW ==> (#[trigger] r.md5.window@[k])
                    matches Option::None,
            forall|k: int|
                0 <= k < DIFFICULTY_ADJUST_WINDOW ==> (#[trigger] r.sha3.window@[k])
                    matches Option::None,
            forall|k: int|
                0 <= k < DIFFICULTY_ADJUST_WINDOW ==> (#[trigger] r.keccak.window@[k])
                    matches Option::None,
    {
        DifficultyAdjusters {
            md5: DifficultyAdjuster::new(SupportedHashes::Md5, config, initial_difficulty),
            sha3: DifficultyAdjuster::new(SupportedHashes::Sha3, config, initial_difficulty),
            keccak: DifficultyAdjuster::new(
                SupportedHashes::Keccak,
                config,
                initial_difficulty,
            ),
        }
    }

    /// Advance every instance for one finalized block: the instance of the
    /// block's algorithm shifts its window, records the block and
    /// retargets, and the other two stay exactly as they were.
    pub fn on_block_finalized(&mut self, block_algo: SupportedHashes, now: u64)
        requires
            old(self).wf(),
        ensures
            final(self).wf(),
            block_algo == SupportedHashes::Md5 ==> final(self).md5.window@ == old(
                self,
            ).md5.window@.subrange(1, DIFFICULTY_ADJUST_WINDOW as int).push(
                Some(
                    DifficultyAndTimestamp { difficulty: old(self).md5.current, timestamp: now },
                ),
            ) && final(self).md5.current.v() == spec_next_difficulty(
                final(self).md5.window@,
                old(self).md5.initial,
                old(self).md5.config,
            ),
            block_algo != SupportedHashes::Md5 ==> final(self).md5 == old(self).md5,
            block_algo == SupportedHashes::Sha3 ==> final(self).sha3.window@ == old(
                self,
            ).sha3.window@.subrange(1, DIFFICULTY_ADJUST_WINDOW as int).push(
                Some(
                    DifficultyAndTimestamp { difficulty: old(self).sha3.current, timestamp: now },
                ),
            ) && final(self).sha3.current.v() == spec_next_difficulty(
                final(self).sha3.window@,
                old(self).sha3.initial,
                old(self).sha3.config,
            ),
            block_algo != SupportedHashes::Sha3 ==> final(self).sha3 == old(self).sha3,
            block_algo == SupportedHashes::Keccak ==> final(self).keccak.window@ == old(
                self,
            ).keccak.window@.subrange(1, DIFFICULTY_ADJUST_WINDOW as int).push(
                Some(
                    DifficultyAndTimestamp {
                        difficulty: old(self).keccak.current,
                        timestamp: now,
                    },
                ),
            ) && final(self).keccak.current.v() == spec_next_difficulty(
                final(self).keccak.window@,
                old(self).keccak.initial,
                old(self).keccak.config,
            ),
            block_algo != SupportedHashes::Keccak ==> final(self).keccak == old(self).keccak,
    {
        self.md5.on_block_finalized(block_algo, now);
        self.sha3.on_block_finalized(block_algo, now);
        self.keccak.on_block_finalized(block_algo, now);
    }

    /// The current difficulty of one algorithm's instance.
    pub fn current_difficulty(&self, algo: SupportedHashes) -> (r: U256)
        ensures
            r == match algo {
                SupportedHashes::Md5 => self.md5.current,
                SupportedHashes::Sha3 => self.sha3.current,
                SupportedHashes::Keccak => self.keccak.current,
            },
    {
        match algo {
            SupportedHashes::Md5 => self.md5.difficulty(),
            SupportedHashes::Sha3 => self.sha3.difficulty(),
            SupportedHashes::Keccak => self.keccak.difficulty(),
        }
    }

    /// The current per-algorithm difficulty vector, as the runtime exposes
    /// it to the seal verifier and the miners.
    pub fn difficulty(&self) -> (r: Threshold)
        ensures
            r.md5 == self.md5.current,
            r.sha3 == self.sha3.current,
            r.keccak == self.keccak.current,
    {
        Threshold {
            md5: self.md5.difficulty(),
            sha3: self.sha3.difficulty(),
            keccak: self.keccak.difficulty(),
        }
    }
}

} // verus!

// The steady-state behavior of the control loop, proved below: a window of
// blocks at exactly the target spacing keeps the difficulty stable up to a
// bounded drift.

use vstd::arithmetic::div_mod::{
    lemma_div_is_ordered_by_denominator, lemma_fundamental_div_mod,
    lemma_fundamental_div_mod_converse,
};

verus! {

proof fn lemma_uniform_deltas(
    w: Seq<Option<DifficultyAndTimestamp>>,
    target: int,
    i: int,
)
    requires
        1 <= i <= w.len(),
        forall|j: int| 1 <= j < i ==> #[trigger] pair_delta(w[j - 1], w[j], target) == target,
    ensures
        spec_deltas(w, target, i) == (i - 1) * target,
    decreases i,
{
    if i == 1 {
        assert((i - 1) * target == 0) by {
            vstd::arithmetic::mul::lemma_mul_by_zero_is_zero(target);
        }
    } else {
        lemma_uniform_deltas(w, target, i - 1);
        assert(pair_delta(w[(i - 1) - 1], w[i - 1], target) == target);
        assert((i - 1) * target == (i - 2) * target + target) by {
            lemma_mul_is_distributive_add_other_way(target, i - 2, 1);
        }
    }
}

proof fn lemma_uniform_diff_sum(
    w: Seq<Option<DifficultyAndTimestamp>>,
    initial: U256,
    difficulty: U256,
    i: int,
)
    requires
        0 <= i <= w.len(),
        forall|j: int|
            0 <= j < i ==> (#[trigger] w[j]) is Some && w[j]->Some_0.difficulty == difficulty,
    ensures
        spec_diff_sum(w, initial, i) == i * difficulty.v(),
    decreases i,
{
    if i == 0 {
        assert(i * difficulty.v() == 0) by {
            vstd::arithmetic::mul::lemma_mul_by_zero_is_zero(difficulty.v());
        }
    } else {
        lemma_uniform_diff_sum(w, initial, difficulty, i - 1);
        assert(i * difficulty.v() == (i - 1) * difficulty.v() + difficulty.v()) by {
            lemma_mul_is_distributive_add_other_way(difficulty.v(), i - 1, 1);
        }
    }
}

/// `(a * t) / (b * t) == a / b` for a positive scale factor `t`.
proof fn lemma_div_scaled(a: int, b: int, t: int)
    requires
        0 <= a,
        1 <= b,
        1 <= t,
    ensures
        (a * t) / (b * t) == a / b,
{
    lemma_fundamental_div_mod(a, b);
    assert(a * t == (a / b) * (b * t) + (a % b) * t) by (nonlinear_arith)
        requires
            a == b * (a / b) + a % b,
    ;
    assert((a % b) * t < b * t) by {
        lemma_mul_inequality(a % b, b - 1, t);
        lemma_mul_is_distributive_add_other_way(t, b - 1, 1);
    }
    assert((a % b) * t >= 0) by {
        lemma_mul_inequality(0, a % b, t);
    }
    assert(b * t >= 1) by {
        lemma_mul_inequality(1, b, t);
    }
    lemma_fundamental_div_mod_converse(a * t, b * t, a / b, (a % b) * t);
}

/// Steady state: when the window is full of blocks of one difficulty at
/// exactly the target spacing, the retarget never lowers the difficulty
/// (short of the configured ceiling) and raises it by at most one
/// fifty-ninth - the loop holds a stable difficulty up to that bounded
/// drift, which stems from damping fifty-nine observed deltas against a
/// sixty-slot goal.
pub proof fn lemma_steady_state_drift(
    w: Seq<Option<DifficultyAndTimestamp>>,
    difficulty: U256,
    initial: U256,
    cfg: AdjusterConfig,
)
    requires
        cfg.wf(),
        w.len() == DIFFICULTY_ADJUST_WINDOW,
        forall|j: int|
            0 <= j < w.len() ==> (#[trigger] w[j]) is Some && w[j]->Some_0.difficulty
                == difficulty,
        forall|j: int|
            1 <= j < w.len() ==> #[trigger] pair_delta(w[j - 1], w[j], cfg.target_block_time as int)
                == cfg.target_block_time as int,
        cfg.min_difficulty <= difficulty.v(),
        60 * difficulty.v() * cfg.target_block_time < p256(),
    ensures
        spec_next_difficulty(w, initial, cfg) >= if difficulty.v() <= cfg.max_difficulty {
            difficulty.v()
        } else {
            cfg.max_difficulty as int
        },
        spec_next_difficulty(w, initial, cfg) <= (60 * difficulty.v()) / 59,
{
    let t = cfg.target_block_time as int;
    let d = difficulty.v();
    let df = cfg.damp_factor as int;
    let cf = cfg.clamp_factor as int;
    assert(DIFFICULTY_ADJUST_WINDOW == 60);
    lemma_uniform_deltas(w, t, 60);
    lemma_uniform_diff_sum(w, initial, difficulty, 60);
    difficulty.lemma_v_bounds();

    // The observed deltas and the difficulty sum under the hypotheses.
    assert(spec_deltas(w, t, 60) == 59 * t);
    assert(spec_diff_sum(w, initial, 60) == 60 * d);
    assert(59 * t >= 59);
    assert(60 * d >= 1 * d) by {
        lemma_mul_inequality(1, 60, d);
    }
    assert(60 * d * t < p256());
    assert(60 * d == 60 * d * 1);
    assert(60 * d * 1 <= 60 * d * t) by {
        lemma_mul_inequality(1, t, 60 * d);
        vstd::arithmetic::mul::lemma_mul_is_commutative(60 * d, t);
        vstd::arithmetic::mul::lemma_mul_is_commutative(60 * d, 1);
    }

    // The damped and clamped window time lies between 59 and 60 target
    // intervals.
    let goal = 60 * t;
    let damped = spec_damp(59 * t, goal, df);
    assert(59 * t + (df - 1) * goal == 60 * t * df - t) by (nonlinear_arith)
        requires
            goal == 60 * t,
    ;
    assert(59 * t * df <= 60 * t * df - t) by (nonlinear_arith)
        requires
            1 <= df,
            1 <= t,
    ;
    assert(damped >= 59 * t) by {
        lemma_div_is_ordered(59 * t * df, 60 * t * df - t, df);
        lemma_div_scaled(59 * t, 1, df);
        assert(59 * t * df == (59 * t) * df);
        assert((59 * t) * df / df == 59 * t) by {
            lemma_fundamental_div_mod_converse(59 * t * df, df, 59 * t, 0);
        }
    }
    assert(damped <= 60 * t) by {
        lemma_div_is_ordered(60 * t * df - t, 60 * t * df, df);
        lemma_fundamental_div_mod_converse(60 * t * df, df, 60 * t, 0);
    }
    let adj_ts = spec_clamp(damped, goal, cf);
    assert(goal * 1 <= goal * cf) by {
        lemma_mul_inequality(1, cf, goal);
        vstd::arithmetic::mul::lemma_mul_is_commutative(goal, cf);
        vstd::arithmetic::mul::lemma_mul_is_commutative(goal, 1);
    }
    assert(goal / cf <= goal) by {
        vstd::arithmetic::div_mod::lemma_div_nonincreasing(goal, cf);
    }
    assert(59 * t <= adj_ts <= 60 * t);

    // The rescaled quotient lies between the old difficulty and sixty
    // fifty-ninths of it.
    let q = (60 * d * t) / adj_ts;
    assert(q >= (60 * d * t) / (60 * t)) by {
        lemma_div_is_ordered_by_denominator(60 * d * t, adj_ts, 60 * t);
    }
    assert((60 * d * t) / (60 * t) == d) by {
        assert(60 * d * t == d * (60 * t)) by (nonlinear_arith);
        lemma_fundamental_div_mod_converse(60 * d * t, 60 * t, d, 0);
    }
    assert(q <= (60 * d * t) / (59 * t)) by {
        lemma_div_is_ordered_by_denominator(60 * d * t, 59 * t, adj_ts);
    }
    assert((60 * d * t) / (59 * t) == (60 * d) / 59) by {
        assert(60 * d * t == (60 * d) * t) by (nonlinear_arith);
        lemma_div_scaled(60 * d, 59, t);
    }
}

} // verus!
