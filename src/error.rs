//! Failures of market operations.
use vstd::prelude::*;

use crate::fixed::MathError;

verus! {

#[derive(Clone, Copy, Debug, PartialEq, Eq, Structural)]
pub enum MarketError {
    MarketResolved,
    MarketNotResolved,
    MarketNotEnd,
    MarketAlreadyResolved,
    InvalidOracleFeed,
    OraclePriceStale,
    OracleNotAvailable,
    EmergencyPeriodNotReached,
    ZeroAmount,
    InvalidTokenMint,
    InvalidOutcome,
    SlippageExceeded,
    MathOverflow,
    MathUnderflow,
    NoLiquidity,
    UnauthorizedResolver,
    OutcomeRequired,
    OracleThresholdRequired,
    PoolLocked,
    InsufficientBalance,
    QuestionTooLong,
    DivisionByZero,
    Diverged,
}

pub open spec fn math_error_spec(e: MathError) -> MarketError {
    match e {
        MathError::Overflow => MarketError::MathOverflow,
        MathError::Underflow => MarketError::MathUnderflow,
        MathError::DivisionByZero => MarketError::DivisionByZero,
        MathError::Diverged => MarketError::Diverged,
    }
}

/// The market failure that reports an arithmetic failure.
pub fn from_math(e: MathError) -> (r: MarketError)
    ensures
        r == math_error_spec(e),
{
    match e {
        MathError::Overflow => MarketError::MathOverflow,
        MathError::Underflow => MarketError::MathUnderflow,
        MathError::DivisionByZero => MarketError::DivisionByZero,
        MathError::Diverged => MarketError::Diverged,
    }
}

impl MarketError {
    /// A sentence describing the failure.
    pub fn message(&self) -> &'static str {
        match self {
            MarketError::MarketResolved => "Market has already been resolved.",
            MarketError::MarketNotResolved => "Market has not been resolved yet.",
            MarketError::MarketNotEnd => "Market has not reached its end time yet.",
            MarketError::MarketAlreadyResolved => "Market is already resolved.",
            MarketError::InvalidOracleFeed => "Invalid oracle feed provided.",
            MarketError::OraclePriceStale => "Oracle price data is stale or invalid.",
            MarketError::OracleNotAvailable => "Oracle data not available.",
            MarketError::EmergencyPeriodNotReached => "Emergency resolution period not reached.",
            MarketError::ZeroAmount => "Amount cannot be zero.",
            MarketError::InvalidTokenMint => "Invalid token mint for redemption.",
            MarketError::InvalidOutcome => "Invalid outcome provided.",
            MarketError::SlippageExceeded => "Slippage tolerance exceeded.",
            MarketError::MathOverflow => "Math overflow occurred.",
            MarketError::MathUnderflow => "Math underflow occurred.",
            MarketError::NoLiquidity => "No liquidity available.",
            MarketError::UnauthorizedResolver => "Unauthorized resolver.",
            MarketError::OutcomeRequired => "Outcome required for manual resolution.",
            MarketError::OracleThresholdRequired => "Outcome threshold required for oracle markets.",
            MarketError::PoolLocked => "Trading is paused for this market.",
            MarketError::InsufficientBalance => "Amount exceeds the outstanding claims.",
            MarketError::QuestionTooLong => "Question exceeds the maximum length.",
            MarketError::DivisionByZero => "Division by zero.",
            MarketError::Diverged => "Logarithm of a non-positive value.",
        }
    }
}

} // verus!
