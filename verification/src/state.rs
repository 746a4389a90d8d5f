//! Distribution cycle state machine: configuration record, cycle start and
//! cycle end, and the laws that govern them.

use vstd::prelude::*;
use crate::DistributorError;

verus! {

/// Eligibility threshold fixed at initialization: holders below it neither
/// count toward the cycle total nor receive a reward.
pub const MIN_TOKEN_THRESHOLD: u64 = 1000;

/// Minimum time, in seconds, between the close of one cycle and the start of
/// the next.
pub const DISTRIBUTION_INTERVAL: i64 = 600;

/// Long-lived distribution configuration and cycle-tracking record.
///
/// `total_eligible_tokens` is the running cycle total; it is meaningful only
/// while `is_distribution_active` holds, is zeroed at cycle start and grows
/// monotonically within a cycle.
#[derive(Clone, Copy, Debug)]
pub struct DistributorState {
    /// Identity permitted to drive the cycle operations.
    pub authority: [u8; 32],
    /// Identity of the token denomination being distributed.
    pub token_mint: [u8; 32],
    /// Minimum holding (inclusive) required for eligibility.
    pub min_token_threshold: u64,
    /// Running sum of eligible balances for the current cycle.
    pub total_eligible_tokens: u64,
    /// Minimum elapsed time between cycles, in seconds.
    pub distribution_interval: i64,
    /// Timestamp of the most recent cycle close.
    pub last_distribution: i64,
    /// The sole concurrency guard: true while a cycle is open.
    pub is_distribution_active: bool,
}

/// What starting a cycle at time `now` does to state `s`: rejected while the
/// interval has not elapsed or while a cycle is already open; otherwise the
/// cycle total is zeroed and the cycle opens.
pub open spec fn spec_start(s: DistributorState, now: i64) -> Result<DistributorState, DistributorError> {
    if now < s.last_distribution + s.distribution_interval {
        Err(DistributorError::TooEarlyForDistribution)
    } else if s.is_distribution_active {
        Err(DistributorError::DistributionInProgress)
    } else {
        Ok(DistributorState {
            total_eligible_tokens: 0,
            is_distribution_active: true,
            ..s
        })
    }
}

/// What ending a cycle at time `now` does to state `s`: rejected while no
/// cycle is open; otherwise the cycle closes and the close time is recorded.
pub open spec fn spec_end(s: DistributorState, now: i64) -> Result<DistributorState, DistributorError> {
    if !s.is_distribution_active {
        Err(DistributorError::DistributionNotStarted)
    } else {
        Ok(DistributorState {
            is_distribution_active: false,
            last_distribution: now,
            ..s
        })
    }
}

/// Create the distribution record: threshold and interval fixed by policy,
/// cycle total zero, no cycle open, and `now` recorded as the last close so
/// that the first cycle respects the interval gate.
pub fn initialize(authority: [u8; 32], token_mint: [u8; 32], now: i64) -> (state: DistributorState)
    ensures
        state.authority == authority,
        state.token_mint == token_mint,
        state.min_token_threshold == MIN_TOKEN_THRESHOLD,
        state.total_eligible_tokens == 0,
        state.distribution_interval == DISTRIBUTION_INTERVAL,
        state.last_distribution == now,
        !state.is_distribution_active,
{
    DistributorState {
        authority,
        token_mint,
        min_token_threshold: MIN_TOKEN_THRESHOLD,
        total_eligible_tokens: 0,
        distribution_interval: DISTRIBUTION_INTERVAL,
        last_distribution: now,
        is_distribution_active: false,
    }
}

/// Open a new distribution cycle at time `now`, exactly as `spec_start`
/// says; on rejection the state is untouched.
pub fn start_distribution(state: &mut DistributorState, now: i64) -> (result: Result<(), DistributorError>)
    requires
        i64::MIN <= old(state).last_distribution + old(state).distribution_interval <= i64::MAX,
    ensures
        match spec_start(*old(state), now) {
            Ok(s) => result == Ok::<(), DistributorError>(()) && *final(state) == s,
            Err(e) => result == Err::<(), DistributorError>(e) && *final(state) == *old(state),
        },
{
    if now < state.last_distribution + state.distribution_interval {
        return Err(DistributorError::TooEarlyForDistribution);
    }
    if state.is_distribution_active {
        return Err(DistributorError::DistributionInProgress);
    }
    state.total_eligible_tokens = 0;
    state.is_distribution_active = true;
    Ok(())
}

/// Close the open distribution cycle at time `now`, exactly as `spec_end`
/// says; on rejection the state is untouched.
pub fn end_distribution(state: &mut DistributorState, now: i64) -> (result: Result<(), DistributorError>)
    ensures
        match spec_end(*old(state), now) {
            Ok(s) => result == Ok::<(), DistributorError>(()) && *final(state) == s,
            Err(e) => result == Err::<(), DistributorError>(e) && *final(state) == *old(state),
        },
{
    if !state.is_distribution_active {
        return Err(DistributorError::DistributionNotStarted);
    }
    state.is_distribution_active = false;
    state.last_distribution = now;
    Ok(())
}

/// Law: a second `start` without an intervening `end` is rejected as already
/// in progress, at any later (or equal) time.
pub proof fn lemma_start_twice_rejected(s: DistributorState, now1: i64, now2: i64)
    requires
        spec_start(s, now1) is Ok,
        now1 <= now2,
    ensures
        spec_start(spec_start(s, now1)->Ok_0, now2)
            == Err::<DistributorState, DistributorError>(DistributorError::DistributionInProgress),
{
}

/// Law: `end` with no cycle open — in particular before any `start` — is
/// rejected as not started, and that is the only way `end` can fail.
pub proof fn lemma_end_without_start_rejected(s: DistributorState, now: i64)
    ensures
        spec_end(s, now) is Err <==> !s.is_distribution_active,
        !s.is_distribution_active ==> spec_end(s, now)
            == Err::<DistributorState, DistributorError>(DistributorError::DistributionNotStarted),
{
}

/// Law: the interval gate is exact. One second before
/// `last_distribution + distribution_interval` a start is rejected as too
/// early; at the boundary itself it succeeds.
pub proof fn lemma_start_interval_boundary(s: DistributorState, early: i64, on_time: i64)
    requires
        !s.is_distribution_active,
        early == s.last_distribution + s.distribution_interval - 1,
        on_time == s.last_distribution + s.distribution_interval,
    ensures
        spec_start(s, early)
            == Err::<DistributorState, DistributorError>(DistributorError::TooEarlyForDistribution),
        spec_start(s, on_time) is Ok,
{
}

} // verus!
