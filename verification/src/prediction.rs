//! The stake ledger: predictions and how they are placed.

use vstd::prelude::*;
use crate::address::Address;
use crate::config::Config;
use crate::error::{InsufficientFunds, MarketErrorCode};
use crate::market::{Market, MarketPhase, MarketRef};

verus! {

/// One participant's staked guess on one market. The record is kept for
/// good: after its creation only the score and the payout flag change.
#[derive(Clone, Copy, Debug, PartialEq, Eq)]
pub struct PredictionData {
    pub market: MarketRef,
    pub prediction_mint: Address,
    pub guessed_mcap: u64,
    pub stake: u64,
    pub timestamp: i64,
    pub bump: u8,
    pub participant: Address,
    pub score: Option<u64>,
    pub claimed: bool,
}

/// Funds that the host is to move from a participant into the custody of a
/// market.
#[derive(Clone, Copy, Debug, PartialEq, Eq)]
pub struct Deposit {
    pub from: Address,
    pub market: MarketRef,
    pub amount: u64,
}

/// What placing a prediction works on: the caller, what the registry holds
/// under the market's reference, the configuration, the receipt issued for
/// this prediction, what the ledger holds under that receipt (`None` while it
/// is free) and the bump of the record's storage address.
#[derive(Clone, Copy, Debug, PartialEq, Eq)]
pub struct PlacePredictionCtx {
    pub user: Address,
    pub market: Option<Market>,
    pub config: Config,
    pub prediction_token_mint: Address,
    pub prediction_data: Option<PredictionData>,
    pub prediction_bump: u8,
}

/// Why a prediction is refused before any funds move, if it is.
pub open spec fn prediction_precheck(ctx: PlacePredictionCtx, stake: u64, now: i64) -> Option<
    MarketErrorCode,
> {
    if ctx.market is None {
        Some(MarketErrorCode::MarketNotFound)
    } else if ctx.prediction_data is Some {
        Some(MarketErrorCode::ReceiptAlreadyUsed)
    } else if now < ctx.market->0.start_ts {
        Some(MarketErrorCode::MarketNotStarted)
    } else if now >= ctx.market->0.end_ts {
        Some(MarketErrorCode::MarketEnded)
    } else if ctx.market->0.resolved {
        Some(MarketErrorCode::AlreadyResolved)
    } else if stake < ctx.config.min_stake {
        Some(MarketErrorCode::StakeTooLow)
    } else if ctx.market->0.sol_reserve + stake > u64::MAX {
        Some(MarketErrorCode::CalculationOverflow)
    } else {
        None
    }
}

/// Why a prediction is refused, if it is, given how the transfer of the
/// stake into custody ended. Whatever can be known before the transfer is
/// tested before it, so no deposit is ever ordered for a prediction that
/// must be refused.
pub open spec fn prediction_rejection(
    ctx: PlacePredictionCtx,
    stake: u64,
    now: i64,
    transfer: Result<(), InsufficientFunds>,
) -> Option<MarketErrorCode> {
    if prediction_precheck(ctx, stake, now) is Some {
        prediction_precheck(ctx, stake, now)
    } else if transfer is Err {
        Some(MarketErrorCode::InsufficientFunds)
    } else {
        None
    }
}

/// The record of an accepted prediction.
pub open spec fn placed_prediction(
    ctx: PlacePredictionCtx,
    guessed_mcap: u64,
    stake: u64,
    now: i64,
) -> PredictionData {
    PredictionData {
        market: ctx.market->0.key(),
        prediction_mint: ctx.prediction_token_mint,
        guessed_mcap,
        stake,
        timestamp: now,
        bump: ctx.prediction_bump,
        participant: ctx.user,
        score: None,
        claimed: false,
    }
}

/// Decides, before any funds move, whether a prediction of `stake` at time
/// `now` can go on. On `Ok` the caller is to make the deposit that is
/// returned, `stake` from the participant into the market's custody, and to
/// hand the outcome to `place_prediction`.
///
/// Refused with `MarketNotFound` when no market is there, else with
/// `ReceiptAlreadyUsed` when the receipt is taken, else with
/// `MarketNotStarted` before the window, `MarketEnded` from its end on,
/// `AlreadyResolved` on a resolved market, `StakeTooLow` below the minimum
/// stake, `CalculationOverflow` when the reserve with the stake would leave
/// the range of `u64`.
pub fn check_prediction(ctx: &PlacePredictionCtx, stake: u64, now: i64) -> (r: Result<
    Deposit,
    MarketErrorCode,
>)
    ensures
        match r {
            Ok(deposit) => {
                &&& prediction_precheck(*ctx, stake, now) is None
                &&& deposit == (Deposit {
                    from: ctx.user,
                    market: ctx.market->0.key(),
                    amount: stake,
                })
            },
            Err(e) => prediction_precheck(*ctx, stake, now) == Some(e),
        },
        r is Ok ==> ctx.market->0.start_ts <= now < ctx.market->0.end_ts && stake
            >= ctx.config.min_stake && ctx.market->0.sol_reserve + stake <= u64::MAX,
{
    let market = match ctx.market {
        Some(m) => m,
        None => {
            return Err(MarketErrorCode::MarketNotFound);
        },
    };
    if ctx.prediction_data.is_some() {
        return Err(MarketErrorCode::ReceiptAlreadyUsed);
    }
    if now < market.start_ts {
        return Err(MarketErrorCode::MarketNotStarted);
    }
    if now >= market.end_ts {
        return Err(MarketErrorCode::MarketEnded);
    }
    if market.resolved {
        return Err(MarketErrorCode::AlreadyResolved);
    }
    if stake < ctx.config.min_stake {
        return Err(MarketErrorCode::StakeTooLow);
    }
    if market.sol_reserve.checked_add(stake).is_none() {
        return Err(MarketErrorCode::CalculationOverflow);
    }
    Ok(Deposit { from: ctx.user, market: market.key(), amount: stake })
}

/// Places a prediction of `stake` on `guessed_mcap` at time `now`, after the
/// transfer of the stake into custody ended as `transfer` says.
///
/// Refused as `check_prediction` refuses, else with `InsufficientFunds`
/// when the transfer failed. So after a check that passed and a transfer
/// that went through, on the same records, the prediction is placed. On
/// success the stake is added to the market's reserve and the record is
/// created under the receipt.
pub fn place_prediction(
    ctx: &mut PlacePredictionCtx,
    guessed_mcap: u64,
    stake: u64,
    now: i64,
    transfer: Result<(), InsufficientFunds>,
) -> (r: Result<(), MarketErrorCode>)
    ensures
        match r {
            Ok(()) => {
                &&& prediction_rejection(*old(ctx), stake, now, transfer) is None
                &&& *final(ctx) == (PlacePredictionCtx {
                    market: Some(
                        Market {
                            sol_reserve: (old(ctx).market->0.sol_reserve + stake) as u64,
                            ..old(ctx).market->0
                        },
                    ),
                    prediction_data: Some(placed_prediction(*old(ctx), guessed_mcap, stake, now)),
                    ..*old(ctx)
                })
            },
            Err(e) => {
                &&& prediction_rejection(*old(ctx), stake, now, transfer) == Some(e)
                &&& *final(ctx) == *old(ctx)
            },
        },
        r is Ok ==> old(ctx).market->0.start_ts <= now < old(ctx).market->0.end_ts && stake >= old(
            ctx,
        ).config.min_stake,
        r is Ok && old(ctx).market->0.wf() ==> final(ctx).market->0.wf(),
        old(ctx).market is Some ==> final(ctx).market->0.sol_reserve == reserve_after(
            *old(ctx),
            stake,
            now,
            transfer,
        ),
{
    match check_prediction(ctx, stake, now) {
        Ok(_) => {},
        Err(e) => {
            return Err(e);
        },
    }
    if transfer.is_err() {
        return Err(MarketErrorCode::InsufficientFunds);
    }
    let mut market = ctx.market.unwrap();
    let reserve: u64 = market.sol_reserve + stake;
    let record = PredictionData {
        market: market.key(),
        prediction_mint: ctx.prediction_token_mint,
        guessed_mcap,
        stake,
        timestamp: now,
        bump: ctx.prediction_bump,
        participant: ctx.user,
        score: None,
        claimed: false,
    };
    market.sol_reserve = reserve;
    ctx.market = Some(market);
    ctx.prediction_data = Some(record);
    Ok(())
}

/// The window is closed at its start and open at its end: a prediction at
/// `start_ts` is not refused for its time, and one at `end_ts` is refused
/// with `MarketEnded` where nothing earlier in the order of the checks
/// refuses it.
pub proof fn lemma_window_boundaries(ctx: PlacePredictionCtx, stake: u64)
    requires
        ctx.market is Some,
        ctx.prediction_data is None,
        ctx.market->0.start_ts < ctx.market->0.end_ts,
    ensures
        prediction_precheck(ctx, stake, ctx.market->0.start_ts) != Some(
            MarketErrorCode::MarketNotStarted,
        ),
        prediction_precheck(ctx, stake, ctx.market->0.start_ts) != Some(
            MarketErrorCode::MarketEnded,
        ),
        !ctx.market->0.resolved && stake >= ctx.config.min_stake && ctx.market->0.sol_reserve
            + stake <= u64::MAX ==> prediction_precheck(ctx, stake, ctx.market->0.start_ts)
            is None,
        prediction_precheck(ctx, stake, ctx.market->0.end_ts) == Some(MarketErrorCode::MarketEnded),
{
}

/// No prediction is accepted outside the window, on a market that is not
/// open, or below the minimum stake.
pub proof fn lemma_accepted_prediction(
    ctx: PlacePredictionCtx,
    stake: u64,
    now: i64,
    transfer: Result<(), InsufficientFunds>,
)
    requires
        prediction_rejection(ctx, stake, now, transfer) is None,
    ensures
        ctx.market is Some,
        ctx.market->0.start_ts <= now < ctx.market->0.end_ts,
        !ctx.market->0.resolved,
        ctx.market->0.phase(now) == MarketPhase::Open,
        stake >= ctx.config.min_stake,
        ctx.market->0.sol_reserve + stake <= u64::MAX,
        transfer is Ok,
{
}

/// On an existing market and with a free receipt a prediction is accepted
/// exactly when the time is inside the window, the market is not resolved,
/// the stake is at least the minimum, the reserve with the stake is a
/// `u64`, and the transfer went through.
pub proof fn lemma_prediction_accepted_exactly(
    ctx: PlacePredictionCtx,
    stake: u64,
    now: i64,
    transfer: Result<(), InsufficientFunds>,
)
    requires
        ctx.market is Some,
        ctx.prediction_data is None,
    ensures
        prediction_rejection(ctx, stake, now, transfer) is None <==> {
            &&& ctx.market->0.start_ts <= now
            &&& now < ctx.market->0.end_ts
            &&& !ctx.market->0.resolved
            &&& stake >= ctx.config.min_stake
            &&& ctx.market->0.sol_reserve + stake <= u64::MAX
            &&& transfer is Ok
        },
{
}

/// Outside the window nothing is accepted, whatever the stake, the state of
/// the market and the transfer: on an existing market and with a free
/// receipt a time before the window gives `MarketNotStarted` and a time
/// from its end on gives `MarketEnded`, in the check before the transfer
/// already.
pub proof fn lemma_prediction_outside_window(
    ctx: PlacePredictionCtx,
    stake: u64,
    now: i64,
    transfer: Result<(), InsufficientFunds>,
)
    requires
        ctx.market is Some,
        ctx.prediction_data is None,
        now < ctx.market->0.start_ts || now >= ctx.market->0.end_ts,
    ensures
        prediction_precheck(ctx, stake, now) == Some(
            if now < ctx.market->0.start_ts {
                MarketErrorCode::MarketNotStarted
            } else {
                MarketErrorCode::MarketEnded
            },
        ),
        prediction_rejection(ctx, stake, now, transfer) == prediction_precheck(ctx, stake, now),
{
}

/// A resolved market takes no prediction: with a free receipt every attempt
/// is refused in the check before the transfer, inside the window with
/// `AlreadyResolved`, whatever the stake, and outside it with the error of
/// the time.
pub proof fn lemma_resolved_market_takes_no_prediction(
    ctx: PlacePredictionCtx,
    stake: u64,
    now: i64,
    transfer: Result<(), InsufficientFunds>,
)
    requires
        ctx.market is Some,
        ctx.prediction_data is None,
        ctx.market->0.resolved,
    ensures
        prediction_precheck(ctx, stake, now) is Some,
        prediction_rejection(ctx, stake, now, transfer) == prediction_precheck(ctx, stake, now),
        ctx.market->0.start_ts <= now < ctx.market->0.end_ts ==> prediction_precheck(
            ctx,
            stake,
            now,
        ) == Some(MarketErrorCode::AlreadyResolved),
        now < ctx.market->0.start_ts ==> prediction_precheck(ctx, stake, now) == Some(
            MarketErrorCode::MarketNotStarted,
        ),
        now >= ctx.market->0.start_ts && now >= ctx.market->0.end_ts ==> prediction_precheck(
            ctx,
            stake,
            now,
        ) == Some(MarketErrorCode::MarketEnded),
{
}

/// What a participant and the custody of a market hold.
pub struct Balances {
    pub participant: int,
    pub custody: int,
}

/// The balances after a prediction that the host handled as it is asked to:
/// it made the deposit exactly when the check passed, and the transfer moved
/// the whole stake or, where it failed, nothing.
pub open spec fn balances_after(
    ctx: PlacePredictionCtx,
    stake: u64,
    now: i64,
    transfer: Result<(), InsufficientFunds>,
    before: Balances,
) -> Balances {
    if prediction_precheck(ctx, stake, now) is None && transfer is Ok {
        Balances { participant: before.participant - stake, custody: before.custody + stake }
    } else {
        before
    }
}

/// The reserve of the market after a prediction.
pub open spec fn reserve_after(
    ctx: PlacePredictionCtx,
    stake: u64,
    now: i64,
    transfer: Result<(), InsufficientFunds>,
) -> int {
    if prediction_rejection(ctx, stake, now, transfer) is None {
        ctx.market->0.sol_reserve + stake
    } else {
        ctx.market->0.sol_reserve as int
    }
}

/// The reserve keeps step with the custody. Where they agree before a
/// prediction they agree after it: an accepted prediction moves the stake
/// once, from the participant into custody and into the reserve; a refused
/// one, a failed transfer included, moves nothing and leaves all three as
/// they were. No value appears or is lost on the way.
pub proof fn lemma_reserve_keeps_step_with_custody(
    ctx: PlacePredictionCtx,
    stake: u64,
    now: i64,
    transfer: Result<(), InsufficientFunds>,
    before: Balances,
)
    requires
        ctx.market is Some,
        before.custody == ctx.market->0.sol_reserve,
    ensures
        ({
            let after = balances_after(ctx, stake, now, transfer, before);
            &&& after.custody == reserve_after(ctx, stake, now, transfer)
            &&& after.custody <= u64::MAX
            &&& after.participant + after.custody == before.participant + before.custody
            &&& prediction_rejection(ctx, stake, now, transfer) is None ==> after.participant
                == before.participant - stake && after.custody == before.custody + stake
            &&& prediction_rejection(ctx, stake, now, transfer) is Some ==> after == before
        }),
{
}

} // verus!
