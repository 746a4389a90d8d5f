//! Eligibility accumulator: sums eligible balances into the cycle total, one
//! bounded batch per call, all-or-nothing on failure.

use vstd::prelude::*;
use crate::DistributorError;
use crate::state::DistributorState;

verus! {

/// Sum of the balances in `batch` that meet the threshold `min`.
pub open spec fn eligible_sum(batch: Seq<u64>, min: u64) -> int
    decreases batch.len(),
{
    if batch.len() == 0 {
        0
    } else {
        eligible_sum(batch.drop_last(), min)
            + (if batch.last() >= min { batch.last() as int } else { 0 })
    }
}

/// What accumulating `batch` does to state `s`: rejected while no cycle is
/// open; rejected, with the total untouched, when the new total would not fit
/// in a `u64`; otherwise every eligible balance of the batch is added to the
/// cycle total.
pub open spec fn spec_accumulate(s: DistributorState, batch: Seq<u64>) -> Result<DistributorState, DistributorError> {
    if !s.is_distribution_active {
        Err(DistributorError::DistributionNotStarted)
    } else if s.total_eligible_tokens + eligible_sum(batch, s.min_token_threshold) > u64::MAX {
        Err(DistributorError::CalculationError)
    } else {
        Ok(DistributorState {
            total_eligible_tokens: (s.total_eligible_tokens
                + eligible_sum(batch, s.min_token_threshold)) as u64,
            ..s
        })
    }
}

proof fn lemma_eligible_sum_take_step(batch: Seq<u64>, min: u64, i: int)
    requires
        0 <= i < batch.len(),
    ensures
        eligible_sum(batch.take(i + 1), min)
            == eligible_sum(batch.take(i), min) + (if batch[i] >= min { batch[i] as int } else { 0 }),
{
    assert(batch.take(i + 1).drop_last() =~= batch.take(i));
    assert(batch.take(i + 1).last() == batch[i]);
}

proof fn lemma_eligible_sum_take_monotone(batch: Seq<u64>, min: u64, i: int, j: int)
    requires
        0 <= i <= j <= batch.len(),
    ensures
        eligible_sum(batch.take(i), min) <= eligible_sum(batch.take(j), min),
    decreases j - i,
{
    if i < j {
        lemma_eligible_sum_take_step(batch, min, j - 1);
        lemma_eligible_sum_take_monotone(batch, min, i, j - 1);
    }
}

/// Add every balance of `batch` that meets the eligibility threshold to the
/// cycle total, exactly as `spec_accumulate` says. The call is all-or-nothing:
/// on any rejection — no open cycle, or the sum overflowing — the state is
/// exactly as it was, so a failed batch can be retried without double
/// counting.
pub fn calculate_total_eligible_tokens(state: &mut DistributorState, batch: &Vec<u64>) -> (result: Result<(), DistributorError>)
    ensures
        match spec_accumulate(*old(state), batch@) {
            Ok(s) => result == Ok::<(), DistributorError>(()) && *final(state) == s,
            Err(e) => result == Err::<(), DistributorError>(e) && *final(state) == *old(state),
        },
        final(state).total_eligible_tokens >= old(state).total_eligible_tokens,
{
    if !state.is_distribution_active {
        return Err(DistributorError::DistributionNotStarted);
    }
    let ghost min = state.min_token_threshold;
    let mut total: u64 = state.total_eligible_tokens;
    let mut i: usize = 0;
    while i < batch.len()
        invariant
            0 <= i <= batch@.len(),
            min == state.min_token_threshold,
            *state == *old(state),
            state.is_distribution_active,
            total == state.total_eligible_tokens + eligible_sum(batch@.take(i as int), min),
        decreases batch@.len() - i,
    {
        let balance = batch[i];
        proof {
            lemma_eligible_sum_take_step(batch@, min, i as int);
        }
        if balance >= state.min_token_threshold {
            match total.checked_add(balance) {
                Some(new_total) => {
                    total = new_total;
                }
                None => {
                    proof {
                        lemma_eligible_sum_take_monotone(batch@, min, i + 1, batch@.len() as int);
                        assert(batch@.take(batch@.len() as int) =~= batch@);
                    }
                    return Err(DistributorError::CalculationError);
                }
            }
        }
        i = i + 1;
    }
    proof {
        assert(batch@.take(batch@.len() as int) =~= batch@);
        lemma_eligible_sum_nonneg(batch@, min);
    }
    state.total_eligible_tokens = total;
    Ok(())
}

/// Law: a batch's eligible sum is never negative, so accumulation never
/// shrinks the cycle total.
pub proof fn lemma_eligible_sum_nonneg(batch: Seq<u64>, min: u64)
    ensures
        0 <= eligible_sum(batch, min),
    decreases batch.len(),
{
    if batch.len() > 0 {
        lemma_eligible_sum_nonneg(batch.drop_last(), min);
    }
}

} // verus!
