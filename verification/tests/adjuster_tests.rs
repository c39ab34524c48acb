use academy_pow::difficulty::{
    clamp, damp, retarget, AdjusterConfig, DifficultyAdjuster, DifficultyAdjusters,
    DifficultyAndTimestamp,
};
use academy_pow::pow::SupportedHashes;
use academy_pow::u256::U256;

fn u(x: u128) -> U256 {
    U256::from_u128(x)
}

fn chain_config() -> AdjusterConfig {
    // The values the runtime configures: 5 s target, damping 3, clamping 2,
    // the damp factor doubling as the minimum difficulty.
    AdjusterConfig {
        target_block_time: 5_000,
        damp_factor: 3,
        clamp_factor: 2,
        min_difficulty: 3,
        max_difficulty: u128::MAX,
    }
}

/// A full window of one difficulty at a fixed block interval.
fn steady_window(difficulty: u128, interval: u64) -> Vec<Option<DifficultyAndTimestamp>> {
    (1..=60u64)
        .map(|i| Some(DifficultyAndTimestamp { difficulty: u(difficulty), timestamp: i * interval }))
        .collect()
}

#[test]
fn damp_moves_toward_goal() {
    // One third of the way from 295000 toward 300000, rounded down.
    assert_eq!(damp(295_000, 300_000, 3), 298_333);
    // A factor of one keeps the actual value.
    assert_eq!(damp(123, 456, 1), 123);
}

#[test]
fn clamp_bounds_to_factor_band() {
    assert_eq!(clamp(100, 1_000, 2), 500);
    assert_eq!(clamp(5_000, 1_000, 2), 2_000);
    assert_eq!(clamp(1_500, 1_000, 2), 1_500);
}

#[test]
fn config_validation() {
    assert!(chain_config().is_valid());
    let mut bad = chain_config();
    bad.target_block_time = 0;
    assert!(!bad.is_valid());
    bad = chain_config();
    bad.min_difficulty = 10;
    bad.max_difficulty = 5;
    assert!(!bad.is_valid());
}

#[test]
fn steady_state_retarget() {
    // Sixty window entries at exactly the target spacing and constant
    // difficulty 1,000,000: the 59 observed deltas sum to 295,000 ms, the
    // damped and clamped window time is 298,333 ms, and the retarget lands
    // at 1,005,587 - a slight upward drift that is inherent to damping a
    // 59-delta observation against a 60-slot goal.
    let window = steady_window(1_000_000, 5_000);
    let next = retarget(&window, u(1_000_000), chain_config());
    assert_eq!(next, u(1_005_587));
}

#[test]
fn steady_state_stays_within_band() {
    // Under exact target spacing the adjustment never moves difficulty by
    // more than 0.6 percent per block in either direction.
    let mut d: u128 = 1_000_000;
    for _ in 0..5 {
        let window = steady_window(d, 5_000);
        let next = retarget(&window, u(1_000_000), chain_config());
        assert!(next.hi == 0);
        let next_val = next.lo;
        assert!(next_val >= d);
        assert!(next_val * 1000 <= d * 1006);
        d = next_val;
    }
}

#[test]
fn empty_window_uses_initial_difficulty() {
    // Genesis plus one block: every empty slot contributes the initial
    // difficulty 4,000,000 and the target interval, so the result stays
    // close to 4,000,000 instead of collapsing to zero.
    let mut adjuster = DifficultyAdjuster::new(SupportedHashes::Sha3, chain_config(), u(4_000_000));
    adjuster.on_block_finalized(SupportedHashes::Sha3, 5_000);
    assert_eq!(adjuster.difficulty(), u(4_022_350));
}

#[test]
fn irrelevant_block_changes_nothing() {
    let mut adjuster = DifficultyAdjuster::new(SupportedHashes::Md5, chain_config(), u(4_000_000));
    adjuster.on_block_finalized(SupportedHashes::Sha3, 5_000);
    adjuster.on_block_finalized(SupportedHashes::Keccak, 10_000);
    assert_eq!(adjuster.difficulty(), u(4_000_000));
    assert!(adjuster.window.iter().all(|e| e.is_none()));
}

#[test]
fn instantaneous_blocks_hit_the_clamp() {
    // All 59 observed deltas zero: the delta sum floors at one, damping
    // pulls it to 200,000 and the quotient grows by exactly half.
    let window = steady_window(1_000_000, 0);
    let next = retarget(&window, u(1_000_000), chain_config());
    assert_eq!(next, u(1_500_000));
}

#[test]
fn huge_gaps_halve_the_difficulty() {
    // Deltas far beyond the goal are clamped to twice the goal, so the
    // difficulty halves and no arithmetic aborts.
    let window = steady_window(1_000_000, u64::MAX / 64);
    let next = retarget(&window, u(1_000_000), chain_config());
    assert_eq!(next, u(500_000));
}

#[test]
fn result_respects_configured_bounds() {
    let mut cfg = chain_config();
    cfg.min_difficulty = 600_000;
    cfg.max_difficulty = 1_200_000;
    // Huge gaps would halve to 500,000, but the floor holds at 600,000.
    let window = steady_window(1_000_000, u64::MAX / 64);
    assert_eq!(retarget(&window, u(1_000_000), cfg), u(600_000));
    // Instant blocks would rise to 1,500,000, but the ceiling holds.
    let window = steady_window(1_000_000, 0);
    assert_eq!(retarget(&window, u(1_000_000), cfg), u(1_200_000));
}

#[test]
fn window_shifts_and_appends() {
    let mut adjuster = DifficultyAdjuster::new(SupportedHashes::Sha3, chain_config(), u(4_000_000));
    adjuster.on_block_finalized(SupportedHashes::Sha3, 1_000);
    assert!(adjuster.window[58].is_none());
    let last = adjuster.window[59].expect("newest slot filled");
    assert_eq!(last.timestamp, 1_000);
    assert_eq!(last.difficulty, u(4_000_000));
    let before = adjuster.difficulty();
    adjuster.on_block_finalized(SupportedHashes::Sha3, 6_000);
    let last = adjuster.window[59].expect("newest slot filled");
    assert_eq!(last.timestamp, 6_000);
    assert_eq!(last.difficulty, before);
    let shifted = adjuster.window[58].expect("previous entry shifted left");
    assert_eq!(shifted.timestamp, 1_000);
}

#[test]
fn per_algorithm_instances_are_independent() {
    let mut set = DifficultyAdjusters::new(chain_config(), u(4_000_000));
    set.on_block_finalized(SupportedHashes::Sha3, 5_000);
    let threshold = set.difficulty();
    // Only the SHA3 instance saw the block.
    assert_eq!(threshold.sha3, u(4_022_350));
    assert_eq!(threshold.md5, u(4_000_000));
    assert_eq!(threshold.keccak, u(4_000_000));
    assert_eq!(set.current_difficulty(SupportedHashes::Sha3), u(4_022_350));
    assert_eq!(set.current_difficulty(SupportedHashes::Md5), u(4_000_000));
    assert_eq!(set.current_difficulty(SupportedHashes::Keccak), u(4_000_000));
}
