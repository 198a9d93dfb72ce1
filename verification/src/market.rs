//! Markets: their identity, their window and their creation.

use vstd::prelude::*;
use vstd::std_specs::cmp::PartialEqSpecImpl;
use crate::address::Address;
use crate::config::Config;
use crate::error::MarketErrorCode;

verus! {

/// The reference of a market: the asset that is forecast and the token of
/// the window. A market is found by these two alone.
#[derive(Clone, Copy, Debug)]
pub struct MarketRef {
    pub token_address: Address,
    pub market_mint: Address,
}

impl PartialEq for MarketRef {
    fn eq(&self, other: &MarketRef) -> (r: bool) {
        self.token_address == other.token_address && self.market_mint == other.market_mint
    }
}

impl Eq for MarketRef {}

impl PartialEqSpecImpl for MarketRef {
    open spec fn obeys_eq_spec() -> bool {
        true
    }

    open spec fn eq_spec(&self, other: &MarketRef) -> bool {
        *self == *other
    }
}

/// Where a market stands in its life. A market only moves forward through
/// these, and `Resolved` is the end.
#[derive(Clone, Copy, Debug, PartialEq, Eq, Structural)]
pub enum MarketPhase {
    /// Created; the window has not opened.
    Pending,
    /// Inside the window: predictions are taken.
    Open,
    /// The window has closed; the market awaits its resolution.
    Closed,
    /// Resolved: the payouts can be computed.
    Resolved,
}

impl MarketPhase {
    /// The place of the phase in the order of a market's life.
    pub open spec fn rank(self) -> int {
        match self {
            MarketPhase::Pending => 0,
            MarketPhase::Open => 1,
            MarketPhase::Closed => 2,
            MarketPhase::Resolved => 3,
        }
    }
}

/// A forecasting market on one asset over one window.
#[derive(Clone, Copy, Debug, PartialEq, Eq)]
pub struct Market {
    pub admin: Address,
    pub token_address: Address,
    pub market_mint: Address,
    pub start_ts: i64,
    pub end_ts: i64,
    pub sol_reserve: u64,
    pub total_score: Option<u64>,
    pub final_mcap: Option<u64>,
    pub resolved: bool,
    pub bump: u8,
    /// The fee rate, in basis points, as it stood when the market was
    /// resolved.
    pub resolved_fee_rate: Option<u64>,
}

/// The values a market is created from.
#[derive(Clone, Copy, Debug, PartialEq, Eq)]
pub struct MarketInitArgs {
    pub admin: Address,
    pub token_address: Address,
    pub market_mint: Address,
    pub start_ts: i64,
    pub end_ts: i64,
    pub bump: u8,
}

/// The market that creation yields: empty, open from `start_ts`, unresolved.
pub open spec fn fresh_market(args: MarketInitArgs) -> Market {
    Market {
        admin: args.admin,
        token_address: args.token_address,
        market_mint: args.market_mint,
        start_ts: args.start_ts,
        end_ts: args.end_ts,
        sol_reserve: 0,
        total_score: None,
        final_mcap: None,
        resolved: false,
        bump: args.bump,
        resolved_fee_rate: None,
    }
}

impl Market {
    /// The reference under which the market is found.
    pub open spec fn spec_key(&self) -> MarketRef {
        MarketRef { token_address: self.token_address, market_mint: self.market_mint }
    }

    /// The window ends after it starts, and the settlement values are there
    /// exactly when the market is resolved.
    pub open spec fn wf(self) -> bool {
        &&& self.start_ts < self.end_ts
        &&& self.resolved == (self.final_mcap is Some)
        &&& self.resolved == (self.total_score is Some)
        &&& self.resolved == (self.resolved_fee_rate is Some)
    }

    /// The record of a market before its creation: nothing is set.
    pub open spec fn spec_vacant() -> Market {
        Market {
            admin: Address::zero(),
            token_address: Address::zero(),
            market_mint: Address::zero(),
            start_ts: 0,
            end_ts: 0,
            sol_reserve: 0,
            total_score: None,
            final_mcap: None,
            resolved: false,
            bump: 0,
            resolved_fee_rate: None,
        }
    }

    /// The record of a market before its creation.
    #[verifier::when_used_as_spec(spec_vacant)]
    pub fn vacant() -> (m: Market)
        ensures
            m == Market::spec_vacant(),
    {
        Market {
            admin: Address::zero(),
            token_address: Address::zero(),
            market_mint: Address::zero(),
            start_ts: 0,
            end_ts: 0,
            sol_reserve: 0,
            total_score: None,
            final_mcap: None,
            resolved: false,
            bump: 0,
            resolved_fee_rate: None,
        }
    }

    /// The phase of the market at time `now`.
    pub open spec fn spec_phase(&self, now: i64) -> MarketPhase {
        if self.resolved {
            MarketPhase::Resolved
        } else if now < self.start_ts {
            MarketPhase::Pending
        } else if now < self.end_ts {
            MarketPhase::Open
        } else {
            MarketPhase::Closed
        }
    }

    /// The phase of the market at time `now`.
    #[verifier::when_used_as_spec(spec_phase)]
    pub fn phase(&self, now: i64) -> (p: MarketPhase)
        ensures
            p == self.spec_phase(now),
    {
        if self.resolved {
            MarketPhase::Resolved
        } else if now < self.start_ts {
            MarketPhase::Pending
        } else if now < self.end_ts {
            MarketPhase::Open
        } else {
            MarketPhase::Closed
        }
    }

    /// The reference under which the market is found.
    #[verifier::when_used_as_spec(spec_key)]
    pub fn key(&self) -> (k: MarketRef)
        ensures
            k == self.spec_key(),
    {
        MarketRef { token_address: self.token_address, market_mint: self.market_mint }
    }

    /// Why `init` is refused, if it is.
    pub open spec fn init_rejection(&self, args: MarketInitArgs) -> Option<MarketErrorCode> {
        if args.end_ts <= args.start_ts {
            Some(MarketErrorCode::InvalidTimeRange)
        } else if self.resolved {
            Some(MarketErrorCode::AlreadyResolved)
        } else {
            None
        }
    }

    /// Sets the market to the state of a new one: the values of `args`, an
    /// empty reserve, no settlement.
    ///
    /// Refused with `InvalidTimeRange` unless the window ends after it
    /// starts, else with `AlreadyResolved` on a resolved market, which
    /// nothing changes any more.
    ///
    /// This is the last step of creating a market and is meant for a record
    /// that no stake stands behind: on an unresolved market it starts the
    /// reserve at zero again, whatever it held. `initialize_market` and
    /// `Engine::create_market` call it on the vacant record only, and refuse
    /// a reference under which a market exists.
    pub fn init(&mut self, args: MarketInitArgs) -> (r: Result<(), MarketErrorCode>)
        ensures
            match r {
                Ok(()) => {
                    &&& old(self).init_rejection(args) is None
                    &&& args.end_ts > args.start_ts
                    &&& !old(self).resolved
                    &&& *final(self) == fresh_market(args)
                },
                Err(e) => {
                    &&& old(self).init_rejection(args) == Some(e)
                    &&& e == (if args.end_ts <= args.start_ts {
                        MarketErrorCode::InvalidTimeRange
                    } else {
                        MarketErrorCode::AlreadyResolved
                    })
                    &&& args.end_ts <= args.start_ts || old(self).resolved
                    &&& *final(self) == *old(self)
                },
            },
            r is Ok ==> final(self).wf(),
            old(self).resolved ==> r is Err && *final(self) == *old(self),
            args.end_ts <= args.start_ts ==> r == Err::<(), MarketErrorCode>(
                MarketErrorCode::InvalidTimeRange,
            ) && *final(self) == *old(self),
    {
        if !(args.end_ts > args.start_ts) {
            return Err(MarketErrorCode::InvalidTimeRange);
        }
        if self.resolved {
            return Err(MarketErrorCode::AlreadyResolved);
        }
        self.admin = args.admin;
        self.token_address = args.token_address;
        self.market_mint = args.market_mint;
        self.start_ts = args.start_ts;
        self.end_ts = args.end_ts;
        self.bump = args.bump;
        self.sol_reserve = 0;
        self.total_score = None;
        self.final_mcap = None;
        self.resolved = false;
        self.resolved_fee_rate = None;
        Ok(())
    }
}

/// What creating a market works on: the caller, the configuration, what the
/// registry holds under the market's reference (`None` while it is free) and
/// the bump of the market's storage address.
#[derive(Clone, Copy, Debug, PartialEq, Eq)]
pub struct InitializeMarket {
    pub admin: Address,
    pub config: Config,
    pub market: Option<Market>,
    pub market_bump: u8,
}

/// Why creating a market is refused, if it is.
pub open spec fn initialize_market_rejection(
    ctx: InitializeMarket,
    duration_seconds: i64,
    now: i64,
) -> Option<MarketErrorCode> {
    if !ctx.config.initialized {
        Some(MarketErrorCode::ConfigNotInitialized)
    } else if ctx.admin != ctx.config.admin {
        Some(MarketErrorCode::Unauthorized)
    } else if ctx.market is Some {
        Some(MarketErrorCode::MarketAlreadyExists)
    } else if duration_seconds <= 0 {
        Some(MarketErrorCode::InvalidTimeRange)
    } else if now + duration_seconds > i64::MAX {
        Some(MarketErrorCode::CalculationOverflow)
    } else {
        None
    }
}

/// Creates the market on `token_address` whose window is marked by
/// `market_mint`, open from `now` for `duration_seconds`.
///
/// Refused with `ConfigNotInitialized` when the configuration is absent,
/// else with `Unauthorized` unless the caller is its admin, else with
/// `MarketAlreadyExists` when the reference is taken, else with
/// `InvalidTimeRange` unless the duration is positive, else with
/// `CalculationOverflow` when the end of the window is no `i64`.
pub fn initialize_market(
    ctx: &mut InitializeMarket,
    token_address: Address,
    market_mint: Address,
    duration_seconds: i64,
    now: i64,
) -> (r: Result<(), MarketErrorCode>)
    ensures
        match r {
            Ok(()) => {
                &&& initialize_market_rejection(*old(ctx), duration_seconds, now) is None
                &&& *final(ctx) == (InitializeMarket {
                    market: Some(
                        fresh_market(
                            MarketInitArgs {
                                admin: old(ctx).config.admin,
                                token_address,
                                market_mint,
                                start_ts: now,
                                end_ts: (now + duration_seconds) as i64,
                                bump: old(ctx).market_bump,
                            },
                        ),
                    ),
                    ..*old(ctx)
                })
            },
            Err(e) => {
                &&& initialize_market_rejection(*old(ctx), duration_seconds, now) == Some(e)
                &&& *final(ctx) == *old(ctx)
            },
        },
        r is Ok ==> final(ctx).market->0.wf() && final(ctx).market->0.key() == (MarketRef {
            token_address,
            market_mint,
        }),
{
    if !ctx.config.initialized {
        return Err(MarketErrorCode::ConfigNotInitialized);
    }
    if ctx.admin != ctx.config.admin {
        return Err(MarketErrorCode::Unauthorized);
    }
    if ctx.market.is_some() {
        return Err(MarketErrorCode::MarketAlreadyExists);
    }
    if duration_seconds <= 0 {
        return Err(MarketErrorCode::InvalidTimeRange);
    }
    let end_ts: i64 = match now.checked_add(duration_seconds) {
        Some(t) => t,
        None => {
            return Err(MarketErrorCode::CalculationOverflow);
        },
    };
    let args = MarketInitArgs {
        admin: ctx.config.admin,
        token_address,
        market_mint,
        start_ts: now,
        end_ts,
        bump: ctx.market_bump,
    };
    let mut market = Market::vacant();
    match market.init(args) {
        Ok(()) => {
            ctx.market = Some(market);
            Ok(())
        },
        Err(e) => Err(e),
    }
}

/// No market goes backward: as time goes on, and whether or not the market
/// is resolved in between, its phase keeps its place or moves on.
pub proof fn lemma_phase_never_goes_back(before: Market, after: Market, earlier: i64, later: i64)
    requires
        before.start_ts < before.end_ts,
        after.start_ts == before.start_ts,
        after.end_ts == before.end_ts,
        before.resolved ==> after.resolved,
        earlier <= later,
    ensures
        before.phase(earlier).rank() <= after.phase(later).rank(),
{
}

} // verus!
