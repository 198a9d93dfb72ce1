//! The failures that the operations report.

use vstd::prelude::*;

verus! {

/// Why an operation was refused. A refused operation changes nothing.
#[derive(Clone, Copy, Debug, PartialEq, Eq, Structural)]
pub enum MarketErrorCode {
    /// The caller is not the admin that the operation asks for.
    Unauthorized,
    /// The configuration singleton has not been created.
    ConfigNotInitialized,
    /// The window of a market must end after it starts.
    InvalidTimeRange,
    /// The window of the market has closed.
    MarketEnded,
    /// The window of the market has not opened.
    MarketNotStarted,
    /// The market has been resolved.
    AlreadyResolved,
    /// Only the admin of a market can resolve it. The operations here refuse
    /// a resolution by anyone else with `Unauthorized`; this variant is for
    /// hosts that tell the two apart, and it keeps the place that gives the
    /// variants after it their numbers.
    UnauthorizedResolution,
    /// The stake is below the minimum.
    StakeTooLow,
    /// The fee rate is above the maximum.
    FeeTooHigh,
    /// An amount, a score or a time left its numeric range.
    CalculationOverflow,
    /// The configuration singleton exists.
    AlreadyInitialized,
    /// A market exists under the same asset and window token.
    MarketAlreadyExists,
    /// No market exists under the reference.
    MarketNotFound,
    /// The window of the market is still running.
    MarketNotEnded,
    /// The market has not been resolved.
    NotResolved,
    /// The payout of the prediction has been claimed.
    AlreadyClaimed,
    /// The custody transfer failed at its source.
    InsufficientFunds,
    /// A prediction exists under the same receipt.
    ReceiptAlreadyUsed,
    /// No prediction exists under the receipt.
    PredictionNotFound,
}

impl MarketErrorCode {
    /// The text that goes with each failure.
    pub open spec fn spec_message(self) -> Seq<char> {
        match self {
            MarketErrorCode::Unauthorized => "Unauthorized"@,
            MarketErrorCode::ConfigNotInitialized => "Config not initialized"@,
            MarketErrorCode::InvalidTimeRange => "Market end time must be after start time"@,
            MarketErrorCode::MarketEnded => "Market has already ended"@,
            MarketErrorCode::MarketNotStarted => "Market has not started yet"@,
            MarketErrorCode::AlreadyResolved => "Market is already resolved"@,
            MarketErrorCode::UnauthorizedResolution => "Only admin can resolve market"@,
            MarketErrorCode::StakeTooLow => "Stake amount below minimum"@,
            MarketErrorCode::FeeTooHigh => "Fee too high"@,
            MarketErrorCode::CalculationOverflow => "Calculation overflow"@,
            MarketErrorCode::AlreadyInitialized => "Config is already initialized"@,
            MarketErrorCode::MarketAlreadyExists => "Market already exists"@,
            MarketErrorCode::MarketNotFound => "Market not found"@,
            MarketErrorCode::MarketNotEnded => "Market has not ended yet"@,
            MarketErrorCode::NotResolved => "Market is not resolved yet"@,
            MarketErrorCode::AlreadyClaimed => "Payout already claimed"@,
            MarketErrorCode::InsufficientFunds => "Insufficient funds"@,
            MarketErrorCode::ReceiptAlreadyUsed => "Receipt already used"@,
            MarketErrorCode::PredictionNotFound => "Prediction not found"@,
        }
    }

    /// The text that goes with this failure.
    pub fn message(&self) -> (s: &'static str)
        ensures
            s@ == self.spec_message(),
    {
        match self {
            MarketErrorCode::Unauthorized => "Unauthorized",
            MarketErrorCode::ConfigNotInitialized => "Config not initialized",
            MarketErrorCode::InvalidTimeRange => "Market end time must be after start time",
            MarketErrorCode::MarketEnded => "Market has already ended",
            MarketErrorCode::MarketNotStarted => "Market has not started yet",
            MarketErrorCode::AlreadyResolved => "Market is already resolved",
            MarketErrorCode::UnauthorizedResolution => "Only admin can resolve market",
            MarketErrorCode::StakeTooLow => "Stake amount below minimum",
            MarketErrorCode::FeeTooHigh => "Fee too high",
            MarketErrorCode::CalculationOverflow => "Calculation overflow",
            MarketErrorCode::AlreadyInitialized => "Config is already initialized",
            MarketErrorCode::MarketAlreadyExists => "Market already exists",
            MarketErrorCode::MarketNotFound => "Market not found",
            MarketErrorCode::MarketNotEnded => "Market has not ended yet",
            MarketErrorCode::NotResolved => "Market is not resolved yet",
            MarketErrorCode::AlreadyClaimed => "Payout already claimed",
            MarketErrorCode::InsufficientFunds => "Insufficient funds",
            MarketErrorCode::ReceiptAlreadyUsed => "Receipt already used",
            MarketErrorCode::PredictionNotFound => "Prediction not found",
        }
    }
}

/// The custody collaborator could not move the funds: the source holds too
/// little.
#[derive(Clone, Copy, Debug, PartialEq, Eq, Structural)]
pub struct InsufficientFunds;

} // verus!
