use token_distributor::DistributorError;
use token_distributor::DistributorState;
use token_distributor::PayoutAction;
use token_distributor::calculate_total_eligible_tokens;
use token_distributor::distribute_rewards;
use token_distributor::end_distribution;
use token_distributor::initialize;
use token_distributor::reward;
use token_distributor::start_distribution;

fn active_state(min_threshold: u64, total: u64) -> DistributorState {
    DistributorState {
        authority: [7u8; 32],
        token_mint: [9u8; 32],
        min_token_threshold: min_threshold,
        total_eligible_tokens: total,
        distribution_interval: 600,
        last_distribution: 0,
        is_distribution_active: true,
    }
}

#[test]
fn initialize_sets_policy_fields() {
    let state = initialize([1u8; 32], [2u8; 32], 1234);
    assert_eq!(state.authority, [1u8; 32]);
    assert_eq!(state.token_mint, [2u8; 32]);
    assert_eq!(state.min_token_threshold, 1000);
    assert_eq!(state.total_eligible_tokens, 0);
    assert_eq!(state.distribution_interval, 600);
    assert_eq!(state.last_distribution, 1234);
    assert!(!state.is_distribution_active);
}

#[test]
fn start_one_second_before_interval_is_too_early() {
    let mut state = initialize([1u8; 32], [2u8; 32], 1000);
    let result = start_distribution(&mut state, 1000 + 600 - 1);
    assert_eq!(result, Err(DistributorError::TooEarlyForDistribution));
    assert!(!state.is_distribution_active);
}

#[test]
fn start_exactly_at_interval_succeeds() {
    let mut state = initialize([1u8; 32], [2u8; 32], 1000);
    let result = start_distribution(&mut state, 1000 + 600);
    assert_eq!(result, Ok(()));
    assert!(state.is_distribution_active);
    assert_eq!(state.total_eligible_tokens, 0);
}

#[test]
fn start_twice_without_end_is_rejected() {
    let mut state = initialize([1u8; 32], [2u8; 32], 0);
    assert_eq!(start_distribution(&mut state, 600), Ok(()));
    let second = start_distribution(&mut state, 601);
    assert_eq!(second, Err(DistributorError::DistributionInProgress));
    assert!(state.is_distribution_active);
}

#[test]
fn start_resets_cycle_total() {
    let mut state = initialize([1u8; 32], [2u8; 32], 0);
    state.total_eligible_tokens = 42;
    assert_eq!(start_distribution(&mut state, 600), Ok(()));
    assert_eq!(state.total_eligible_tokens, 0);
}

#[test]
fn end_before_any_start_is_rejected() {
    let mut state = initialize([1u8; 32], [2u8; 32], 0);
    let result = end_distribution(&mut state, 50);
    assert_eq!(result, Err(DistributorError::DistributionNotStarted));
    assert_eq!(state.last_distribution, 0);
}

#[test]
fn end_records_close_time_and_closes_cycle() {
    let mut state = initialize([1u8; 32], [2u8; 32], 0);
    assert_eq!(start_distribution(&mut state, 600), Ok(()));
    assert_eq!(end_distribution(&mut state, 650), Ok(()));
    assert!(!state.is_distribution_active);
    assert_eq!(state.last_distribution, 650);
}

#[test]
fn interval_gate_holds_after_a_close() {
    let mut state = initialize([1u8; 32], [2u8; 32], 0);
    assert_eq!(start_distribution(&mut state, 600), Ok(()));
    assert_eq!(end_distribution(&mut state, 700), Ok(()));
    assert_eq!(
        start_distribution(&mut state, 700 + 599),
        Err(DistributorError::TooEarlyForDistribution)
    );
    assert_eq!(start_distribution(&mut state, 700 + 600), Ok(()));
}

#[test]
fn accumulate_requires_an_open_cycle() {
    let mut state = initialize([1u8; 32], [2u8; 32], 0);
    let batch = vec![5000u64];
    let result = calculate_total_eligible_tokens(&mut state, &batch);
    assert_eq!(result, Err(DistributorError::DistributionNotStarted));
    assert_eq!(state.total_eligible_tokens, 0);
}

#[test]
fn accumulate_counts_only_eligible_balances() {
    let mut state = active_state(1000, 0);
    let batch = vec![1500u64, 500u64, 3500u64];
    assert_eq!(calculate_total_eligible_tokens(&mut state, &batch), Ok(()));
    assert_eq!(state.total_eligible_tokens, 5000);
}

#[test]
fn accumulate_threshold_is_inclusive() {
    let mut state = active_state(1000, 0);
    let batch = vec![1000u64, 999u64];
    assert_eq!(calculate_total_eligible_tokens(&mut state, &batch), Ok(()));
    assert_eq!(state.total_eligible_tokens, 1000);
}

#[test]
fn accumulate_empty_batch_changes_nothing() {
    let mut state = active_state(1000, 77_000);
    let batch: Vec<u64> = Vec::new();
    assert_eq!(calculate_total_eligible_tokens(&mut state, &batch), Ok(()));
    assert_eq!(state.total_eligible_tokens, 77_000);
}

#[test]
fn accumulate_extends_the_running_total_across_batches() {
    let mut state = active_state(1000, 0);
    let first = vec![2000u64, 3000u64];
    let second = vec![4000u64, 100u64];
    assert_eq!(calculate_total_eligible_tokens(&mut state, &first), Ok(()));
    assert_eq!(calculate_total_eligible_tokens(&mut state, &second), Ok(()));
    assert_eq!(state.total_eligible_tokens, 9000);
}

#[test]
fn accumulate_overflow_fails_without_partial_commit() {
    let mut state = active_state(1000, u64::MAX - 1500);
    // The first balance fits, the second overflows: nothing may be committed.
    let batch = vec![1000u64, 1000u64];
    let result = calculate_total_eligible_tokens(&mut state, &batch);
    assert_eq!(result, Err(DistributorError::CalculationError));
    assert_eq!(state.total_eligible_tokens, u64::MAX - 1500);
    assert!(state.is_distribution_active);
}

#[test]
fn reward_uses_floor_not_round() {
    // 2 * 10 / 7 = 20 / 7 = 2.857..., floored to 2.
    assert_eq!(reward(2, 7, 10), Ok(2));
}

#[test]
fn reward_matches_wide_precision_reference() {
    let samples: Vec<(u64, u64, u64)> = vec![
        (1500, 5000, 1000),
        (3500, 5000, 1000),
        (2, 7, 10),
        (1, 3, u64::MAX / 2),
        (123_456_789, 987_654_321, 1_000_000),
        (1000, 1000, 999),
    ];
    for (ti, ttotal, x) in samples {
        let expected = ((ti as u128 * x as u128) / ttotal as u128) as u64;
        assert_eq!(reward(ti, ttotal, x), Ok(expected));
    }
}

#[test]
fn reward_rejects_product_overflow() {
    assert_eq!(reward(u64::MAX, 1, 2), Err(DistributorError::CalculationError));
}

#[test]
fn reward_rejects_zero_cycle_total() {
    assert_eq!(reward(5000, 0, 1000), Err(DistributorError::CalculationError));
}

#[test]
fn rewards_across_holders_never_exceed_pool() {
    // Balances 3, 3 and 1 with threshold 0: total 7, pool 10; floor leaves dust.
    let holders = vec![3u64, 3u64, 1u64];
    let ttotal: u64 = holders.iter().sum();
    let pool: u64 = 10;
    let mut paid: u64 = 0;
    for ti in holders {
        paid += reward(ti, ttotal, pool).unwrap();
    }
    assert_eq!(paid, 9);
    assert!(paid <= pool);
}

#[test]
fn payout_requires_an_open_cycle() {
    let mut state = active_state(1000, 5000);
    state.is_distribution_active = false;
    let result = distribute_rewards(&state, 1500, 1000);
    assert!(matches!(result, Err(DistributorError::DistributionNotStarted)));
}

#[test]
fn payout_rejects_holder_below_threshold() {
    let state = active_state(1000, 5000);
    let result = distribute_rewards(&state, 500, 1000);
    assert!(matches!(result, Err(DistributorError::InsufficientBalance)));
}

#[test]
fn payout_skips_transfer_on_zero_reward() {
    // 1000 * 3 / 5_000_000 floors to zero: handled, but no transfer.
    let state = active_state(1000, 5_000_000);
    match distribute_rewards(&state, 1000, 3) {
        Ok(PayoutAction::SkipTransfer) => {}
        other => panic!("expected a skip, got {:?}", other),
    }
}

#[test]
fn payout_rejects_zero_cycle_total() {
    let state = active_state(1000, 0);
    let result = distribute_rewards(&state, 1500, 1000);
    assert!(matches!(result, Err(DistributorError::CalculationError)));
}

#[test]
fn full_cycle_pays_proportional_shares() {
    // Threshold 1000; holders hold 1500, 500 and 3500; pool is 1000.
    let mut state = initialize([1u8; 32], [2u8; 32], 0);
    assert_eq!(start_distribution(&mut state, 600), Ok(()));

    let batch = vec![1500u64, 500u64, 3500u64];
    assert_eq!(calculate_total_eligible_tokens(&mut state, &batch), Ok(()));
    assert_eq!(state.total_eligible_tokens, 5000);

    let pool: u64 = 1000;
    match distribute_rewards(&state, 1500, pool) {
        Ok(PayoutAction::Transfer { amount, .. }) => assert_eq!(amount, 300),
        other => panic!("expected a transfer, got {:?}", other),
    }
    assert!(matches!(
        distribute_rewards(&state, 500, pool),
        Err(DistributorError::InsufficientBalance)
    ));
    match distribute_rewards(&state, 3500, pool) {
        Ok(PayoutAction::Transfer { amount, .. }) => assert_eq!(amount, 700),
        other => panic!("expected a transfer, got {:?}", other),
    }
    // 300 + 700 covers the whole pool: no dust in this example.

    assert_eq!(end_distribution(&mut state, 700), Ok(()));
    assert!(!state.is_distribution_active);
}
