//! Payouts of a resolved market, and what they add up to.
//!
//! The fee is taken from the reserve at the fee rate that the market kept
//! at its resolution, so a later change of the configuration changes no
//! payout. Each prediction is paid its share of the rest by its score,
//! rounded down, whenever it claims: the order of the claims changes
//! nothing. What rounding leaves, and the whole pool of a market whose total
//! score is zero, stays with the protocol.

use vstd::prelude::*;
use crate::address::Address;
use crate::error::{InsufficientFunds, MarketErrorCode};
use crate::market::{Market, MarketRef};
use crate::prediction::PredictionData;
use crate::settlement::BPS_DENOMINATOR;

verus! {

/// The protocol fee on a reserve: `reserve * fee_rate / 10000`, rounded down.
pub open spec fn spec_fee(reserve: u64, fee_rate: u64) -> int {
    reserve * fee_rate / (BPS_DENOMINATOR as int)
}

/// What is left of a reserve for the payouts.
pub open spec fn spec_payout_pool(reserve: u64, fee_rate: u64) -> int {
    reserve - spec_fee(reserve, fee_rate)
}

/// The part of the pool that goes to a score: `pool * score / total`,
/// rounded down, and nothing when the total is zero.
pub open spec fn spec_share(pool: int, score: int, total: int) -> int {
    if total == 0 {
        0
    } else {
        pool * score / total
    }
}

/// The market is resolved and the prediction has its score.
pub open spec fn settled(market: Market, prediction: PredictionData) -> bool {
    &&& market.resolved
    &&& market.total_score is Some
    &&& market.resolved_fee_rate is Some
    &&& prediction.score is Some
}

/// The fee of a resolved market.
pub open spec fn market_fee(market: Market) -> int {
    spec_fee(market.sol_reserve, market.resolved_fee_rate->0)
}

/// The payout pool of a resolved market.
pub open spec fn market_pool(market: Market) -> int {
    spec_payout_pool(market.sol_reserve, market.resolved_fee_rate->0)
}

/// The payout of a prediction on a resolved market.
pub open spec fn payout_amount(market: Market, prediction: PredictionData) -> int {
    spec_share(market_pool(market), prediction.score->0 as int, market.total_score->0 as int)
}

/// The fee on a reserve and the pool that it leaves, or `None` when the fee
/// is more than the reserve.
pub fn fee_and_pool(reserve: u64, fee_rate: u64) -> (r: Option<(u64, u64)>)
    ensures
        match r {
            Some((fee, pool)) => fee == spec_fee(reserve, fee_rate) && pool == spec_payout_pool(
                reserve,
                fee_rate,
            ),
            None => spec_fee(reserve, fee_rate) > reserve,
        },
        fee_rate <= BPS_DENOMINATOR ==> r is Some,
{
    assert(reserve * fee_rate <= u64::MAX * u64::MAX) by (nonlinear_arith)
        requires
            reserve <= u64::MAX,
            fee_rate <= u64::MAX,
    ;
    let product: u128 = (reserve as u128) * (fee_rate as u128);
    let fee: u128 = product / (BPS_DENOMINATOR as u128);
    proof {
        if fee_rate <= BPS_DENOMINATOR {
            lemma_fee_bounds(reserve, fee_rate);
        }
    }
    if fee > reserve as u128 {
        None
    } else {
        Some((fee as u64, reserve - fee as u64))
    }
}

/// A fee at a rate of at most the whole lies between zero and the reserve.
pub proof fn lemma_fee_bounds(reserve: u64, fee_rate: u64)
    requires
        fee_rate <= BPS_DENOMINATOR,
    ensures
        0 <= spec_fee(reserve, fee_rate) <= reserve,
        0 <= spec_payout_pool(reserve, fee_rate) <= reserve,
{
    let r = reserve as int;
    let f = fee_rate as int;
    assert(0 <= r * f / 10000 <= r) by (nonlinear_arith)
        requires
            0 <= r,
            0 <= f <= 10000,
    ;
}

/// A share of a pool, or `None` when it is no `u64`.
pub fn share(pool: u64, score: u64, total: u64) -> (r: Option<u64>)
    ensures
        match r {
            Some(amount) => amount == spec_share(pool as int, score as int, total as int),
            None => spec_share(pool as int, score as int, total as int) > u64::MAX,
        },
        score <= total ==> r is Some,
{
    if total == 0 {
        return Some(0);
    }
    assert(pool * score <= u64::MAX * u64::MAX) by (nonlinear_arith)
        requires
            pool <= u64::MAX,
            score <= u64::MAX,
    ;
    let product: u128 = (pool as u128) * (score as u128);
    let amount: u128 = product / (total as u128);
    proof {
        if score <= total {
            lemma_share_bounds(pool as int, score as int, total as int);
        }
    }
    if amount > u64::MAX as u128 {
        None
    } else {
        Some(amount as u64)
    }
}

/// A share is never negative, and a score of at most the total gets at most
/// the pool.
pub proof fn lemma_share_bounds(pool: int, score: int, total: int)
    requires
        0 <= pool,
        0 <= score,
        0 <= total,
    ensures
        0 <= spec_share(pool, score, total),
        spec_share(pool, score, total) * total <= pool * score,
        score <= total ==> spec_share(pool, score, total) <= pool,
{
    if total > 0 {
        assert(0 <= pool * score / total && (pool * score / total) * total <= pool * score)
            by (nonlinear_arith)
            requires
                0 <= pool,
                0 <= score,
                0 < total,
        ;
        if score <= total {
            assert(pool * score / total <= pool) by (nonlinear_arith)
                requires
                    0 <= pool,
                    0 <= score <= total,
                    0 < total,
            ;
        }
    } else {
        assert(0 * total == 0) by (nonlinear_arith);
        assert(0 <= pool * score) by (nonlinear_arith)
            requires
                0 <= pool,
                0 <= score,
        ;
    }
}

/// Funds that the host is to move out of the custody of a market to a
/// participant.
#[derive(Clone, Copy, Debug, PartialEq, Eq)]
pub struct Payout {
    pub market: MarketRef,
    pub to: Address,
    pub amount: u64,
}

/// The payout of a prediction goes out of its market to its participant.
pub open spec fn is_payout_of(payout: Payout, market: Market, prediction: PredictionData) -> bool {
    &&& payout.market == prediction.market
    &&& payout.to == prediction.participant
    &&& payout.amount == payout_amount(market, prediction)
}

/// What claiming a payout works on: what the ledger holds under the
/// receipt, and what the registry holds under the reference of that
/// prediction's market.
#[derive(Clone, Copy, Debug, PartialEq, Eq)]
pub struct ClaimPayout {
    pub market: Option<Market>,
    pub prediction: Option<PredictionData>,
}

/// Why a claim is refused before any funds move, if it is.
pub open spec fn claim_precheck(ctx: ClaimPayout) -> Option<MarketErrorCode> {
    if ctx.prediction is None {
        Some(MarketErrorCode::PredictionNotFound)
    } else if ctx.market is None || ctx.market->0.key() != ctx.prediction->0.market {
        Some(MarketErrorCode::MarketNotFound)
    } else if !settled(ctx.market->0, ctx.prediction->0) {
        Some(MarketErrorCode::NotResolved)
    } else if ctx.prediction->0.claimed {
        Some(MarketErrorCode::AlreadyClaimed)
    } else if market_pool(ctx.market->0) < 0 || payout_amount(ctx.market->0, ctx.prediction->0)
        > u64::MAX {
        Some(MarketErrorCode::CalculationOverflow)
    } else {
        None
    }
}

/// Why a claim is refused, if it is, given how the transfer of the payout
/// to the participant ended.
pub open spec fn claim_rejection(ctx: ClaimPayout, transfer: Result<(), InsufficientFunds>) -> Option<
    MarketErrorCode,
> {
    if claim_precheck(ctx) is Some {
        claim_precheck(ctx)
    } else if transfer is Err {
        Some(MarketErrorCode::InsufficientFunds)
    } else {
        None
    }
}

/// Decides, before any funds move, what a claim pays. On `Ok` the caller is
/// to make the payout that is returned, from the market's custody to the
/// prediction's participant, and to hand the outcome to `claim_payout`.
///
/// Refused with `PredictionNotFound` when no prediction is there, else with
/// `MarketNotFound` when the prediction's market is not, else with
/// `NotResolved` until the market is resolved and the prediction scored,
/// else with `AlreadyClaimed` when the payout flag is set, else with
/// `CalculationOverflow` when the fee is more than the reserve or the payout
/// is no `u64`.
pub fn check_claim(ctx: &ClaimPayout) -> (r: Result<Payout, MarketErrorCode>)
    ensures
        match r {
            Ok(payout) => claim_precheck(*ctx) is None && is_payout_of(
                payout,
                ctx.market->0,
                ctx.prediction->0,
            ),
            Err(e) => claim_precheck(*ctx) == Some(e),
        },
{
    let prediction = match ctx.prediction {
        Some(p) => p,
        None => {
            return Err(MarketErrorCode::PredictionNotFound);
        },
    };
    let market = match ctx.market {
        Some(m) => m,
        None => {
            return Err(MarketErrorCode::MarketNotFound);
        },
    };
    if market.key() != prediction.market {
        return Err(MarketErrorCode::MarketNotFound);
    }
    if !market.resolved {
        return Err(MarketErrorCode::NotResolved);
    }
    let (total, fee_rate, score) = match (
        market.total_score,
        market.resolved_fee_rate,
        prediction.score,
    ) {
        (Some(t), Some(f), Some(s)) => (t, f, s),
        _ => {
            return Err(MarketErrorCode::NotResolved);
        },
    };
    if prediction.claimed {
        return Err(MarketErrorCode::AlreadyClaimed);
    }
    let pool: u64 = match fee_and_pool(market.sol_reserve, fee_rate) {
        Some((_, pool)) => pool,
        None => {
            return Err(MarketErrorCode::CalculationOverflow);
        },
    };
    match share(pool, score, total) {
        Some(amount) => Ok(Payout { market: prediction.market, to: prediction.participant, amount }),
        None => Err(MarketErrorCode::CalculationOverflow),
    }
}

/// Claims the payout of a prediction, after the transfer that `check_claim`
/// asked for ended as `transfer` says. On success the payout flag is set
/// and the payout that was made is returned; the market is left as it is.
///
/// Refused as `check_claim` refuses, else with `InsufficientFunds` when the
/// transfer failed.
pub fn claim_payout(ctx: &mut ClaimPayout, transfer: Result<(), InsufficientFunds>) -> (r: Result<
    Payout,
    MarketErrorCode,
>)
    ensures
        match r {
            Ok(payout) => {
                &&& claim_rejection(*old(ctx), transfer) is None
                &&& is_payout_of(payout, old(ctx).market->0, old(ctx).prediction->0)
                &&& *final(ctx) == (ClaimPayout {
                    market: old(ctx).market,
                    prediction: Some(PredictionData { claimed: true, ..old(ctx).prediction->0 }),
                })
            },
            Err(e) => claim_rejection(*old(ctx), transfer) == Some(e) && *final(ctx) == *old(ctx),
        },
        old(ctx).prediction is Some && old(ctx).prediction->0.claimed ==> r is Err,
{
    let payout = match check_claim(ctx) {
        Ok(p) => p,
        Err(e) => {
            return Err(e);
        },
    };
    if transfer.is_err() {
        return Err(MarketErrorCode::InsufficientFunds);
    }
    let mut prediction = ctx.prediction.unwrap();
    prediction.claimed = true;
    ctx.prediction = Some(prediction);
    Ok(payout)
}

/// A payout is claimed once: after a claim that went through, a second one
/// on the same prediction is refused with `AlreadyClaimed`, however its
/// transfer ended.
pub proof fn lemma_claim_is_final(
    ctx: ClaimPayout,
    transfer: Result<(), InsufficientFunds>,
    again: Result<(), InsufficientFunds>,
)
    requires
        claim_rejection(ctx, transfer) is None,
    ensures
        claim_rejection(
            ClaimPayout {
                market: ctx.market,
                prediction: Some(PredictionData { claimed: true, ..ctx.prediction->0 }),
            },
            again,
        ) == Some(MarketErrorCode::AlreadyClaimed),
{
}

/// The sum of the scores that the predictions on the market `key` hold.
pub open spec fn recorded_scores(predictions: Seq<PredictionData>, key: MarketRef) -> int
    decreases predictions.len(),
{
    if predictions.len() == 0 {
        0
    } else {
        recorded_scores(predictions.drop_last(), key) + if predictions.last().market == key {
            predictions.last().score->0 as int
        } else {
            0
        }
    }
}

/// The sum of the payouts of all predictions on the market.
pub open spec fn payouts_total(predictions: Seq<PredictionData>, market: Market) -> int
    decreases predictions.len(),
{
    if predictions.len() == 0 {
        0
    } else {
        payouts_total(predictions.drop_last(), market) + if predictions.last().market
            == market.key() {
            payout_amount(market, predictions.last())
        } else {
            0
        }
    }
}

/// The sum of the payouts that have been claimed on the market.
pub open spec fn payouts_claimed(predictions: Seq<PredictionData>, market: Market) -> int
    decreases predictions.len(),
{
    if predictions.len() == 0 {
        0
    } else {
        payouts_claimed(predictions.drop_last(), market) + if predictions.last().market
            == market.key() && predictions.last().claimed {
            payout_amount(market, predictions.last())
        } else {
            0
        }
    }
}

/// What rounding leaves in the pool once every payout is made: it accrues
/// to the protocol.
pub open spec fn remainder(predictions: Seq<PredictionData>, market: Market) -> int {
    market_pool(market) - payouts_total(predictions, market)
}

/// Every prediction on the market has claimed its payout.
pub open spec fn all_claimed(predictions: Seq<PredictionData>, key: MarketRef) -> bool {
    forall|i: int|
        0 <= i < predictions.len() && (#[trigger] predictions[i]).market == key
            ==> predictions[i].claimed
}

/// The market is resolved at a fee rate of at most the whole, every
/// prediction on it holds a score, and its total score is their sum.
pub open spec fn settlement_consistent(predictions: Seq<PredictionData>, market: Market) -> bool {
    &&& market.resolved
    &&& market.total_score is Some
    &&& market.resolved_fee_rate is Some
    &&& market.resolved_fee_rate->0 <= BPS_DENOMINATOR
    &&& forall|i: int|
        0 <= i < predictions.len() && (#[trigger] predictions[i]).market == market.key()
            ==> predictions[i].score is Some
    &&& recorded_scores(predictions, market.key()) == market.total_score->0
}

proof fn lemma_payouts_against_scores(predictions: Seq<PredictionData>, market: Market)
    requires
        0 <= market_pool(market),
        market.total_score is Some,
    ensures
        0 <= recorded_scores(predictions, market.key()),
        0 <= payouts_claimed(predictions, market) <= payouts_total(predictions, market),
        payouts_total(predictions, market) * (market.total_score->0 as int) <= market_pool(market)
            * recorded_scores(predictions, market.key()),
        all_claimed(predictions, market.key()) ==> payouts_claimed(predictions, market)
            == payouts_total(predictions, market),
    decreases predictions.len(),
{
    let pool = market_pool(market);
    let total = market.total_score->0 as int;
    if predictions.len() == 0 {
        assert(0 * total == 0) by (nonlinear_arith);
        assert(pool * 0 == 0) by (nonlinear_arith);
    } else {
        let rest = predictions.drop_last();
        let p = predictions.last();
        lemma_payouts_against_scores(rest, market);
        if all_claimed(predictions, market.key()) {
            assert forall|i: int| 0 <= i < rest.len() && (#[trigger] rest[i]).market
                == market.key() implies rest[i].claimed by {
                assert(rest[i] == predictions[i]);
            }
            assert(predictions[predictions.len() - 1] == p);
        }
        if p.market == market.key() {
            let s = p.score->0 as int;
            let a = payout_amount(market, p);
            lemma_share_bounds(pool, s, total);
            let x = payouts_total(rest, market);
            let y = recorded_scores(rest, market.key());
            assert((x + a) * total <= pool * (y + s)) by (nonlinear_arith)
                requires
                    x * total <= pool * y,
                    a * total <= pool * s,
            ;
        }
    }
}

/// Settlement neither creates nor destroys value. On a consistently
/// resolved market the fee, the payouts of all predictions and the
/// remainder fill the reserve exactly, and none of them is negative; so the
/// payouts claimed so far, the fee and the remainder never exceed the
/// reserve, and they equal it once every prediction has claimed.
pub proof fn lemma_settlement_conservation(predictions: Seq<PredictionData>, market: Market)
    requires
        settlement_consistent(predictions, market),
    ensures
        0 <= market_fee(market) <= market.sol_reserve,
        0 <= payouts_claimed(predictions, market) <= payouts_total(predictions, market),
        0 <= remainder(predictions, market),
        market_fee(market) + payouts_total(predictions, market) + remainder(predictions, market)
            == market.sol_reserve,
        payouts_claimed(predictions, market) + market_fee(market) + remainder(predictions, market)
            <= market.sol_reserve,
        all_claimed(predictions, market.key()) ==> payouts_claimed(predictions, market)
            + market_fee(market) + remainder(predictions, market) == market.sol_reserve,
{
    lemma_fee_bounds(market.sol_reserve, market.resolved_fee_rate->0);
    lemma_payouts_against_scores(predictions, market);
    let pool = market_pool(market);
    let total = market.total_score->0 as int;
    let paid = payouts_total(predictions, market);
    if total > 0 {
        assert(paid <= pool) by (nonlinear_arith)
            requires
                paid * total <= pool * total,
                total > 0,
        ;
    } else {
        lemma_payouts_vanish(predictions, market);
    }
}

proof fn lemma_payouts_vanish(predictions: Seq<PredictionData>, market: Market)
    requires
        market.total_score == Some(0u64),
    ensures
        payouts_total(predictions, market) == 0,
    decreases predictions.len(),
{
    if predictions.len() > 0 {
        lemma_payouts_vanish(predictions.drop_last(), market);
    }
}

/// On a consistently resolved market the payout of each prediction is a
/// `u64` and at most the pool, so a claim is never refused for arithmetic.
pub proof fn lemma_payout_fits(predictions: Seq<PredictionData>, market: Market, i: int)
    requires
        settlement_consistent(predictions, market),
        0 <= i < predictions.len(),
        predictions[i].market == market.key(),
    ensures
        predictions[i].score->0 <= market.total_score->0,
        0 <= payout_amount(market, predictions[i]) <= market_pool(market) <= market.sol_reserve,
{
    lemma_fee_bounds(market.sol_reserve, market.resolved_fee_rate->0);
    lemma_recorded_score_bounded(predictions, market.key(), i);
    lemma_share_bounds(
        market_pool(market),
        predictions[i].score->0 as int,
        market.total_score->0 as int,
    );
}

proof fn lemma_recorded_score_bounded(predictions: Seq<PredictionData>, key: MarketRef, i: int)
    requires
        0 <= i < predictions.len(),
        predictions[i].market == key,
    ensures
        0 <= recorded_scores(predictions.drop_last(), key) <= recorded_scores(predictions, key),
        predictions[i].score->0 <= recorded_scores(predictions, key),
    decreases predictions.len(),
{
    lemma_recorded_scores_nonnegative(predictions.drop_last(), key);
    if i < predictions.len() - 1 {
        lemma_recorded_score_bounded(predictions.drop_last(), key, i);
    }
}

proof fn lemma_recorded_scores_nonnegative(predictions: Seq<PredictionData>, key: MarketRef)
    ensures
        0 <= recorded_scores(predictions, key),
    decreases predictions.len(),
{
    if predictions.len() > 0 {
        lemma_recorded_scores_nonnegative(predictions.drop_last(), key);
    }
}

} // verus!
