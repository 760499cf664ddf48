use vstd::prelude::*;

verus! {

/// Why a request was turned down.
#[derive(Clone, Copy, Debug, PartialEq, Eq, Structural)]
pub enum InsightArenaError {
    /// The contract has no configuration yet.
    NotInitialized,
    /// The platform is paused.
    Paused,
    /// No market has the requested id.
    MarketNotFound,
    /// The market no longer takes predictions.
    MarketExpired,
    /// The market does not offer the chosen outcome.
    InvalidOutcome,
    /// The stake is below the market's minimum.
    StakeTooLow,
    /// The stake is above the market's maximum.
    StakeTooHigh,
    /// The predictor already holds a prediction on the market.
    AlreadyPredicted,
    /// A running total would leave its integer type.
    Overflow,
}

} // verus!
