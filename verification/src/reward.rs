//! Reward calculator and per-holder payout decision, with the law that floor
//! rounding never pays out more than the pool holds.

use vstd::prelude::*;
use vstd::arithmetic::div_mod::lemma_fundamental_div_mod;
use vstd::arithmetic::div_mod::lemma_mod_bound;
use vstd::arithmetic::mul::lemma_mul_is_distributive_add;
use vstd::arithmetic::mul::lemma_mul_is_distributive_add_other_way;
use vstd::arithmetic::mul::lemma_mul_is_distributive_sub;
use crate::DistributorError;
use crate::accumulate::eligible_sum;
use crate::state::DistributorState;

verus! {

/// The proportional share of a holder with balance `ti` out of a cycle total
/// `ttotal`, from a pool of `x`: `floor(ti * x / ttotal)`.
pub open spec fn reward_share(ti: u64, ttotal: u64, x: u64) -> int {
    (ti * x) / (ttotal as int)
}

/// What the reward calculator returns: the floored proportional share, or a
/// calculation error exactly when the product `ti * x` does not fit in a
/// `u64` or the cycle total is zero.
pub open spec fn spec_reward(ti: u64, ttotal: u64, x: u64) -> Result<u64, DistributorError> {
    if ti * x > u64::MAX {
        Err(DistributorError::CalculationError)
    } else if ttotal == 0 {
        Err(DistributorError::CalculationError)
    } else {
        Ok(reward_share(ti, ttotal, x) as u64)
    }
}

/// Compute a holder's reward `floor(ti * x / ttotal)`, multiplying before
/// dividing so no precision is lost; overflow of the product and a zero total
/// are rejected, exactly as `spec_reward` says.
pub fn reward(ti: u64, ttotal: u64, x: u64) -> (result: Result<u64, DistributorError>)
    ensures
        result == spec_reward(ti, ttotal, x),
        ti * x <= u64::MAX && ttotal > 0
            ==> result == Ok::<u64, DistributorError>(((ti * x) / (ttotal as int)) as u64),
{
    let product = match ti.checked_mul(x) {
        Some(p) => p,
        None => {
            return Err(DistributorError::CalculationError);
        }
    };
    if ttotal == 0 {
        return Err(DistributorError::CalculationError);
    }
    Ok(product / ttotal)
}

/// Non-custodial delegated-signing capability for the reward vault: holding a
/// value of this type is what authorizes an outbound transfer, and only the
/// payout decision below constructs one.
#[derive(Debug)]
pub struct VaultAuthority {
    derivation: (),
}

/// The outcome of a successful per-holder payout decision.
#[derive(Debug)]
pub enum PayoutAction {
    /// The computed reward is zero: no transfer is made, but the payout still
    /// counts as handled.
    SkipTransfer,
    /// Move `amount` units from the reward vault to the holder, presenting
    /// the vault authority to the ledger's transfer primitive.
    Transfer { amount: u64, authority: VaultAuthority },
}

/// What the per-holder payout decides for a holder with balance
/// `holder_tokens` against a vault of `vault_tokens`: rejected while no cycle
/// is open or while the holder is below the threshold; otherwise the reward
/// calculator's verdict on the cycle total.
pub open spec fn spec_distribute(s: DistributorState, holder_tokens: u64, vault_tokens: u64) -> Result<u64, DistributorError> {
    if !s.is_distribution_active {
        Err(DistributorError::DistributionNotStarted)
    } else if holder_tokens < s.min_token_threshold {
        Err(DistributorError::InsufficientBalance)
    } else {
        spec_reward(holder_tokens, s.total_eligible_tokens, vault_tokens)
    }
}

/// Decide one holder's payout: reject ineligible holders and closed cycles,
/// compute the reward against the finalized cycle total, and hand back either
/// a transfer order carrying the vault authority (reward positive) or a skip
/// (reward zero), exactly as `spec_distribute` says.
pub fn distribute_rewards(state: &DistributorState, holder_tokens: u64, vault_tokens: u64) -> (result: Result<PayoutAction, DistributorError>)
    ensures
        match spec_distribute(*state, holder_tokens, vault_tokens) {
            Ok(r) => match result {
                Ok(action) => if r == 0 {
                    action is SkipTransfer
                } else {
                    (action matches PayoutAction::Transfer { amount, authority: _ } && amount == r)
                },
                Err(_) => false,
            },
            Err(e) => result == Err::<PayoutAction, DistributorError>(e),
        },
{
    if !state.is_distribution_active {
        return Err(DistributorError::DistributionNotStarted);
    }
    if holder_tokens < state.min_token_threshold {
        return Err(DistributorError::InsufficientBalance);
    }
    let amount = match reward(holder_tokens, state.total_eligible_tokens, vault_tokens) {
        Ok(a) => a,
        Err(e) => {
            return Err(e);
        }
    };
    if amount > 0 {
        Ok(PayoutAction::Transfer { amount, authority: VaultAuthority { derivation: () } })
    } else {
        Ok(PayoutAction::SkipTransfer)
    }
}

/// Sum of a population's balances.
pub open spec fn sum_balances(holders: Seq<u64>) -> int
    decreases holders.len(),
{
    if holders.len() == 0 {
        0
    } else {
        sum_balances(holders.drop_last()) + holders.last() as int
    }
}

/// Sum of the floored proportional shares across a population.
pub open spec fn sum_rewards(holders: Seq<u64>, ttotal: u64, x: u64) -> int
    decreases holders.len(),
{
    if holders.len() == 0 {
        0
    } else {
        sum_rewards(holders.drop_last(), ttotal, x) + reward_share(holders.last(), ttotal, x)
    }
}

/// Sum of the per-holder rounding remainders `(ti * x) % ttotal`.
pub open spec fn sum_remainders(holders: Seq<u64>, ttotal: u64, x: u64) -> int
    decreases holders.len(),
{
    if holders.len() == 0 {
        0
    } else {
        sum_remainders(holders.drop_last(), ttotal, x)
            + (holders.last() * x) % (ttotal as int)
    }
}

proof fn lemma_rewards_partition(holders: Seq<u64>, ttotal: u64, x: u64)
    requires
        ttotal > 0,
    ensures
        ttotal * sum_rewards(holders, ttotal, x) + sum_remainders(holders, ttotal, x)
            == sum_balances(holders) * x,
        0 <= sum_remainders(holders, ttotal, x),
    decreases holders.len(),
{
    let t = ttotal as int;
    if holders.len() == 0 {
        assert(t * 0 == 0) by (nonlinear_arith);
        assert(0 * x == 0) by (nonlinear_arith);
    } else {
        let prefix = holders.drop_last();
        let ti = holders.last() as int;
        lemma_rewards_partition(prefix, ttotal, x);
        lemma_fundamental_div_mod(ti * x, t);
        lemma_mod_bound(ti * x, t);
        lemma_mul_is_distributive_add(t, sum_rewards(prefix, ttotal, x), reward_share(holders.last(), ttotal, x));
        lemma_mul_is_distributive_add_other_way(x as int, sum_balances(prefix), ti);
    }
}

/// Law: with the cycle total equal to the sum of the population's eligible
/// balances, the floored shares never pay out more than the pool holds, and
/// the shortfall is exactly the rounding dust: `ttotal` times the unpaid part
/// of the pool equals the sum of the per-holder remainders.
pub proof fn lemma_rewards_never_exceed_pool(holders: Seq<u64>, ttotal: u64, x: u64)
    requires
        ttotal > 0,
        sum_balances(holders) == ttotal,
    ensures
        sum_rewards(holders, ttotal, x) <= x,
        ttotal * (x - sum_rewards(holders, ttotal, x)) == sum_remainders(holders, ttotal, x),
{
    let t = ttotal as int;
    let paid = sum_rewards(holders, ttotal, x);
    let dust = sum_remainders(holders, ttotal, x);
    lemma_rewards_partition(holders, ttotal, x);
    lemma_mul_is_distributive_sub(t, x as int, paid);
    assert(t * (x - paid) == dust);
    assert(x - paid >= 0) by (nonlinear_arith) requires t > 0, t * (x - paid) >= 0;
}

proof fn lemma_sum_balances_push(s: Seq<u64>, x: u64)
    ensures
        sum_balances(s.push(x)) == sum_balances(s) + x,
{
    assert(s.push(x).drop_last() =~= s);
}

/// Law: the accumulator's eligible sum over a population is exactly the
/// summed balance of the holders that meet the threshold.
pub proof fn lemma_eligible_sum_is_eligible_balances(batch: Seq<u64>, min: u64)
    ensures
        eligible_sum(batch, min) == sum_balances(batch.filter(|b: u64| b >= min)),
    decreases batch.len(),
{
    reveal(Seq::filter);
    if batch.len() == 0 {
        assert(batch.filter(|b: u64| b >= min) == batch);
    } else {
        lemma_eligible_sum_is_eligible_balances(batch.drop_last(), min);
        if batch.last() >= min {
            assert(batch.filter(|b: u64| b >= min)
                == batch.drop_last().filter(|b: u64| b >= min).push(batch.last()));
            lemma_sum_balances_push(
                batch.drop_last().filter(|b: u64| b >= min),
                batch.last(),
            );
        } else {
            assert(batch.filter(|b: u64| b >= min)
                == batch.drop_last().filter(|b: u64| b >= min));
        }
    }
}

/// Law: a cycle whose total was accumulated from each holder of the
/// population exactly once pays its eligible holders, in sum, at most the
/// pool.
pub proof fn lemma_cycle_payout_bounded(balances: Seq<u64>, min: u64, ttotal: u64, x: u64)
    requires
        ttotal > 0,
        ttotal == eligible_sum(balances, min),
    ensures
        sum_rewards(balances.filter(|b: u64| b >= min), ttotal, x) <= x,
{
    lemma_eligible_sum_is_eligible_balances(balances, min);
    lemma_rewards_never_exceed_pool(balances.filter(|b: u64| b >= min), ttotal, x);
}

} // verus!
