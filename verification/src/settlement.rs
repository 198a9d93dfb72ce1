//! The settlement engine: scoring and resolution.
//!
//! A prediction's score is `SCORE_SCALE / (1 + |guess - final value|)`,
//! rounded down, so guesses at the same distance from the final value score
//! the same, whichever side they are on. The total score of a market is the
//! sum over its predictions; a market whose total is no `u64` cannot be
//! resolved with that final value.

use vstd::prelude::*;
use crate::address::Address;
use crate::config::Config;
use crate::error::MarketErrorCode;
use crate::market::{Market, MarketPhase, MarketRef};
use crate::prediction::PredictionData;

verus! {

/// The score of an exact guess.
pub const SCORE_SCALE: u64 = 1_000_000_000_000;

/// The number of basis points in the whole.
pub const BPS_DENOMINATOR: u64 = 10_000;

/// The distance between a guess and the final value.
pub open spec fn spec_abs_error(guessed_mcap: u64, final_mcap: u64) -> int {
    if guessed_mcap >= final_mcap {
        guessed_mcap - final_mcap
    } else {
        final_mcap - guessed_mcap
    }
}

/// The accuracy score of a guess: `SCORE_SCALE / (1 + error)`, rounded down.
pub open spec fn spec_accuracy_score(guessed_mcap: u64, final_mcap: u64) -> int {
    SCORE_SCALE as int / (1 + spec_abs_error(guessed_mcap, final_mcap))
}

/// A score lies between zero and `SCORE_SCALE`.
pub proof fn lemma_accuracy_score_bounds(guessed_mcap: u64, final_mcap: u64)
    ensures
        0 <= spec_accuracy_score(guessed_mcap, final_mcap) <= SCORE_SCALE,
{
    let d = 1 + spec_abs_error(guessed_mcap, final_mcap);
    let x = SCORE_SCALE as int;
    assert(0 <= x / d <= x) by (nonlinear_arith)
        requires
            d >= 1,
            x >= 0,
    ;
}

/// Of two guesses the one that is no further from the final value scores no
/// less; guesses at the same distance score the same.
pub proof fn lemma_accuracy_score_monotonic(near: u64, far: u64, final_mcap: u64)
    requires
        spec_abs_error(near, final_mcap) <= spec_abs_error(far, final_mcap),
    ensures
        spec_accuracy_score(near, final_mcap) >= spec_accuracy_score(far, final_mcap),
        spec_abs_error(near, final_mcap) == spec_abs_error(far, final_mcap)
            ==> spec_accuracy_score(near, final_mcap) == spec_accuracy_score(far, final_mcap),
{
    let a = 1 + spec_abs_error(near, final_mcap);
    let b = 1 + spec_abs_error(far, final_mcap);
    let x = SCORE_SCALE as int;
    assert(x / a >= x / b) by (nonlinear_arith)
        requires
            1 <= a <= b,
            x >= 0,
    ;
}

/// The accuracy score of a guess.
pub fn accuracy_score(guessed_mcap: u64, final_mcap: u64) -> (s: u64)
    ensures
        s == spec_accuracy_score(guessed_mcap, final_mcap),
        s <= SCORE_SCALE,
{
    let error: u64 = if guessed_mcap >= final_mcap {
        guessed_mcap - final_mcap
    } else {
        final_mcap - guessed_mcap
    };
    proof {
        lemma_accuracy_score_bounds(guessed_mcap, final_mcap);
    }
    let q: u128 = (SCORE_SCALE as u128) / (error as u128 + 1);
    q as u64
}

/// The sum of the scores of the predictions on the market `key`.
pub open spec fn score_total(predictions: Seq<PredictionData>, key: MarketRef, final_mcap: u64) -> int
    decreases predictions.len(),
{
    if predictions.len() == 0 {
        0
    } else {
        score_total(predictions.drop_last(), key, final_mcap) + if predictions.last().market
            == key {
            spec_accuracy_score(predictions.last().guessed_mcap, final_mcap)
        } else {
            0
        }
    }
}

/// The sum of the scores is at most `SCORE_SCALE` for each prediction of the
/// ledger, so a ledger of up to 18,446,744 predictions never overflows it.
pub proof fn lemma_score_total_bounded(
    predictions: Seq<PredictionData>,
    key: MarketRef,
    final_mcap: u64,
)
    ensures
        0 <= score_total(predictions, key, final_mcap) <= predictions.len() * SCORE_SCALE,
        predictions.len() <= 18_446_744 ==> score_total(predictions, key, final_mcap) <= u64::MAX,
    decreases predictions.len(),
{
    if predictions.len() > 0 {
        lemma_score_total_bounded(predictions.drop_last(), key, final_mcap);
        lemma_accuracy_score_bounds(predictions.last().guessed_mcap, final_mcap);
    }
}

/// The sum of the scores only grows along the ledger.
pub proof fn lemma_score_total_grows(
    predictions: Seq<PredictionData>,
    key: MarketRef,
    final_mcap: u64,
    n: int,
)
    requires
        0 <= n <= predictions.len(),
    ensures
        0 <= score_total(predictions.take(n), key, final_mcap) <= score_total(
            predictions,
            key,
            final_mcap,
        ),
    decreases predictions.len(),
{
    if predictions.len() == 0 {
        assert(predictions.take(n) =~= predictions);
    } else if n == predictions.len() {
        assert(predictions.take(n) =~= predictions);
        lemma_score_total_grows(predictions.drop_last(), key, final_mcap, n - 1);
        assert(predictions.drop_last().take(n - 1) =~= predictions.drop_last());
        lemma_accuracy_score_bounds(predictions.last().guessed_mcap, final_mcap);
    } else {
        lemma_score_total_grows(predictions.drop_last(), key, final_mcap, n);
        assert(predictions.drop_last().take(n) =~= predictions.take(n));
        lemma_accuracy_score_bounds(predictions.last().guessed_mcap, final_mcap);
    }
}

/// One record after resolution: its score is set when it is on the market
/// `key`, and it is left alone otherwise.
pub open spec fn scored_one(p: PredictionData, key: MarketRef, final_mcap: u64) -> PredictionData {
    if p.market == key {
        PredictionData {
            score: Some(spec_accuracy_score(p.guessed_mcap, final_mcap) as u64),
            ..p
        }
    } else {
        p
    }
}

/// The ledger after resolution of the market `key`.
pub open spec fn scored(predictions: Seq<PredictionData>, key: MarketRef, final_mcap: u64) -> Seq<
    PredictionData,
> {
    Seq::new(predictions.len(), |i: int| scored_one(predictions[i], key, final_mcap))
}

/// The market after its resolution.
pub open spec fn resolved_market(market: Market, final_mcap: u64, total: u64, fee_rate: u64) -> Market {
    Market {
        final_mcap: Some(final_mcap),
        total_score: Some(total),
        resolved: true,
        resolved_fee_rate: Some(fee_rate),
        ..market
    }
}

/// What resolving a market works on: the caller, what the registry holds
/// under the market's reference, the configuration and the ledger of
/// predictions, of all markets.
#[derive(Debug)]
pub struct ResolveMarket {
    pub admin: Address,
    pub market: Option<Market>,
    pub config: Config,
    pub predictions: Vec<PredictionData>,
}

/// Why resolving a market is refused, if it is.
pub open spec fn resolution_rejection(
    admin: Address,
    market: Option<Market>,
    predictions: Seq<PredictionData>,
    final_mcap: u64,
    now: i64,
) -> Option<MarketErrorCode> {
    if market is None {
        Some(MarketErrorCode::MarketNotFound)
    } else if admin != market->0.admin {
        Some(MarketErrorCode::Unauthorized)
    } else if now < market->0.end_ts {
        Some(MarketErrorCode::MarketNotEnded)
    } else if market->0.resolved {
        Some(MarketErrorCode::AlreadyResolved)
    } else if score_total(predictions, market->0.key(), final_mcap) > u64::MAX {
        Some(MarketErrorCode::CalculationOverflow)
    } else {
        None
    }
}

/// The sum of the scores of the predictions on the market `key`, or `None`
/// when it is no `u64`.
pub fn total_score(predictions: &Vec<PredictionData>, key: MarketRef, final_mcap: u64) -> (r:
    Option<u64>)
    ensures
        match r {
            Some(t) => t == score_total(predictions@, key, final_mcap),
            None => score_total(predictions@, key, final_mcap) > u64::MAX,
        },
{
    let mut total: u64 = 0;
    let mut i: usize = 0;
    while i < predictions.len()
        invariant
            i <= predictions.len(),
            total == score_total(predictions@.take(i as int), key, final_mcap),
        decreases predictions.len() - i,
    {
        let p = predictions[i];
        proof {
            assert(predictions@.take(i + 1).drop_last() =~= predictions@.take(i as int));
            assert(predictions@.take(i + 1).last() == p);
        }
        if p.market == key {
            let s = accuracy_score(p.guessed_mcap, final_mcap);
            match total.checked_add(s) {
                Some(t) => {
                    total = t;
                },
                None => {
                    proof {
                        lemma_score_total_grows(predictions@, key, final_mcap, i + 1);
                    }
                    return None;
                },
            }
        }
        i += 1;
    }
    proof {
        assert(predictions@.take(i as int) =~= predictions@);
    }
    Some(total)
}

/// Resolves the market with the final value `final_mcap` at time `now`:
/// every prediction on it is scored, and the market keeps the final value,
/// the sum of the scores and the fee rate of this moment.
///
/// Refused with `MarketNotFound` when no market is there, else with
/// `Unauthorized` unless the caller is the market's admin, else with
/// `MarketNotEnded` before the end of the window, else with
/// `AlreadyResolved` on a resolved market, else with `CalculationOverflow`
/// when the sum of the scores is no `u64`.
pub fn resolve_market(ctx: &mut ResolveMarket, final_mcap: u64, now: i64) -> (r: Result<
    (),
    MarketErrorCode,
>)
    ensures
        final(ctx).admin == old(ctx).admin,
        final(ctx).config == old(ctx).config,
        match r {
            Ok(()) => {
                &&& resolution_rejection(
                    old(ctx).admin,
                    old(ctx).market,
                    old(ctx).predictions@,
                    final_mcap,
                    now,
                ) is None
                &&& final(ctx).market == Some(
                    resolved_market(
                        old(ctx).market->0,
                        final_mcap,
                        score_total(old(ctx).predictions@, old(ctx).market->0.key(), final_mcap) as u64,
                        old(ctx).config.fee_rate,
                    ),
                )
                &&& final(ctx).predictions@ == scored(
                    old(ctx).predictions@,
                    old(ctx).market->0.key(),
                    final_mcap,
                )
            },
            Err(e) => {
                &&& resolution_rejection(
                    old(ctx).admin,
                    old(ctx).market,
                    old(ctx).predictions@,
                    final_mcap,
                    now,
                ) == Some(e)
                &&& final(ctx).market == old(ctx).market
                &&& final(ctx).predictions@ == old(ctx).predictions@
            },
        },
        old(ctx).market is Some && old(ctx).market->0.resolved ==> r is Err,
        r is Ok && old(ctx).market->0.wf() ==> final(ctx).market->0.wf(),
{
    let market = match ctx.market {
        Some(m) => m,
        None => {
            return Err(MarketErrorCode::MarketNotFound);
        },
    };
    if ctx.admin != market.admin {
        return Err(MarketErrorCode::Unauthorized);
    }
    if now < market.end_ts {
        return Err(MarketErrorCode::MarketNotEnded);
    }
    if market.resolved {
        return Err(MarketErrorCode::AlreadyResolved);
    }
    let key = market.key();
    let total: u64 = match total_score(&ctx.predictions, key, final_mcap) {
        Some(t) => t,
        None => {
            return Err(MarketErrorCode::CalculationOverflow);
        },
    };
    let mut i: usize = 0;
    while i < ctx.predictions.len()
        invariant
            i <= ctx.predictions.len(),
            ctx.predictions.len() == old(ctx).predictions.len(),
            ctx.admin == old(ctx).admin,
            ctx.config == old(ctx).config,
            ctx.market == old(ctx).market,
            forall|j: int|
                0 <= j < i ==> ctx.predictions@[j] == scored_one(
                    old(ctx).predictions@[j],
                    key,
                    final_mcap,
                ),
            forall|j: int|
                i <= j < ctx.predictions.len() ==> ctx.predictions@[j] == old(ctx).predictions@[j],
        decreases ctx.predictions.len() - i,
    {
        let mut p = ctx.predictions[i];
        if p.market == key {
            p.score = Some(accuracy_score(p.guessed_mcap, final_mcap));
            ctx.predictions.set(i, p);
        }
        i += 1;
    }
    proof {
        assert(ctx.predictions@ =~= scored(old(ctx).predictions@, key, final_mcap));
    }
    let mut m = market;
    m.final_mcap = Some(final_mcap);
    m.total_score = Some(total);
    m.resolved = true;
    m.resolved_fee_rate = Some(ctx.config.fee_rate);
    ctx.market = Some(m);
    Ok(())
}

/// A resolved market takes no resolution: whoever asks, whenever, with
/// whatever final value, the attempt is refused.
pub proof fn lemma_resolved_market_refuses(
    admin: Address,
    market: Market,
    predictions: Seq<PredictionData>,
    final_mcap: u64,
    now: i64,
)
    requires
        market.resolved,
    ensures
        resolution_rejection(admin, Some(market), predictions, final_mcap, now) is Some,
        resolution_rejection(admin, Some(market), predictions, final_mcap, now) != Some(
            MarketErrorCode::CalculationOverflow,
        ),
{
}

/// Resolution happens once: when the market's admin asks again, no earlier
/// than the end of the window, the attempt is refused with
/// `AlreadyResolved`.
pub proof fn lemma_second_resolution_refused(
    admin: Address,
    market: Market,
    predictions: Seq<PredictionData>,
    final_mcap: u64,
    now: i64,
)
    requires
        market.resolved,
        admin == market.admin,
        now >= market.end_ts,
    ensures
        resolution_rejection(admin, Some(market), predictions, final_mcap, now) == Some(
            MarketErrorCode::AlreadyResolved,
        ),
{
}

/// A market is resolved from the phase `Closed` and from no other, and the
/// resolution takes it to `Resolved` for good.
pub proof fn lemma_resolution_closes(
    admin: Address,
    market: Market,
    predictions: Seq<PredictionData>,
    final_mcap: u64,
    now: i64,
    fee_rate: u64,
    later: i64,
)
    requires
        market.wf(),
        resolution_rejection(admin, Some(market), predictions, final_mcap, now) is None,
    ensures
        market.phase(now) == MarketPhase::Closed,
        resolved_market(
            market,
            final_mcap,
            score_total(predictions, market.key(), final_mcap) as u64,
            fee_rate,
        ).phase(later) == MarketPhase::Resolved,
{
}

} // verus!
