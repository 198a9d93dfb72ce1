//! Custody and settlement engine for time-boxed forecasting markets.
//!
//! Participants stake funds on a guess of a token's market capitalization
//! inside a fixed window. After the window the market's admin supplies the
//! final value, every guess is scored by its accuracy, a protocol fee is
//! taken and the rest of the reserve is paid out in proportion to the
//! scores.
//!
//! The operations come in two forms. The functions of `config`, `market`,
//! `prediction`, `settlement` and `payout` work on the records that one
//! operation touches, handed in by a host that keeps the records itself.
//! `engine::Engine` keeps the records and finds them by their references;
//! `ledger` states what holds between its markets and its predictions.
//!
//! Moving funds is the host's part. An operation that moves funds comes as
//! a check, which the host calls before the transfer, and the operation
//! itself, which takes the outcome of the transfer. The check refuses
//! whatever can be refused, so a transfer is only asked for where the
//! operation goes through once the transfer has.

pub mod address;
pub mod config;
pub mod engine;
pub mod error;
pub mod ledger;
pub mod market;
pub mod payout;
pub mod prediction;
pub mod settlement;

pub use address::Address;
pub use config::{
    initialize_config, update_config, Config, InitializeConfig, UpdateConfig, MAX_FEE_RATE_BPS,
    MIN_STAKE_LAMPORTS,
};
pub use engine::Engine;
pub use error::{InsufficientFunds, MarketErrorCode};
pub use market::{
    initialize_market, InitializeMarket, Market, MarketInitArgs, MarketPhase, MarketRef,
};
pub use payout::{check_claim, claim_payout, fee_and_pool, share, ClaimPayout, Payout};
pub use prediction::{
    check_prediction, place_prediction, Deposit, PlacePredictionCtx, PredictionData,
};
pub use settlement::{
    accuracy_score, resolve_market, total_score, ResolveMarket, BPS_DENOMINATOR, SCORE_SCALE,
};
