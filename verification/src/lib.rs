//! Proportional token-reward distribution core.
//!
//! A holder with eligible balance `t` out of a cycle total `ttotal` receives
//! `floor(t * x / ttotal)` units of a reward pool of size `x`. The library
//! holds the distribution cycle state machine, the batched eligibility
//! accumulator and the reward calculator; reading balances, the clock and
//! moving tokens are the surrounding ledger's work.

use vstd::prelude::*;

pub mod accumulate;
pub mod reward;
pub mod state;

pub use crate::accumulate::calculate_total_eligible_tokens;
pub use crate::reward::PayoutAction;
pub use crate::reward::VaultAuthority;
pub use crate::reward::distribute_rewards;
pub use crate::reward::reward;
pub use crate::state::DistributorState;
pub use crate::state::initialize;
pub use crate::state::start_distribution;
pub use crate::state::end_distribution;

verus! {

/// Errors surfaced by the distribution operations.
#[derive(Clone, Copy, Debug, PartialEq, Eq, Structural)]
pub enum DistributorError {
    /// The distribution interval has not elapsed since the last cycle closed.
    TooEarlyForDistribution,
    /// Arithmetic overflow in accumulation or reward computation.
    CalculationError,
    /// A cycle is already active.
    DistributionInProgress,
    /// No cycle is active.
    DistributionNotStarted,
    /// The holder is below the eligibility threshold.
    InsufficientBalance,
}

} // verus!
