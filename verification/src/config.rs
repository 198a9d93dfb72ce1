//! The configuration singleton: the admin, the fee rate and the minimum
//! stake.

use vstd::prelude::*;
use crate::address::Address;
use crate::error::MarketErrorCode;

verus! {

/// The highest fee rate, in basis points: 10%.
pub const MAX_FEE_RATE_BPS: u64 = 1000;

/// The protocol floor of the minimum stake.
pub const MIN_STAKE_LAMPORTS: u64 = 40_000_000;

/// The protocol-wide parameters. Before the singleton is created the record
/// is vacant: `initialized` is false.
#[derive(Clone, Copy, Debug, PartialEq, Eq)]
pub struct Config {
    pub admin: Address,
    pub fee_rate: u64,
    pub min_stake: u64,
    pub initialized: bool,
}

impl Config {
    /// The fee rate and the minimum stake are inside the protocol's bounds.
    pub open spec fn bounded(self) -> bool {
        self.fee_rate <= MAX_FEE_RATE_BPS && self.min_stake >= MIN_STAKE_LAMPORTS
    }

    /// A record that has been created is bounded.
    pub open spec fn wf(self) -> bool {
        self.initialized ==> self.bounded()
    }

    /// The record before the singleton is created: no admin, no fee, no
    /// minimum stake.
    pub open spec fn spec_vacant() -> Config {
        Config { admin: Address::zero(), fee_rate: 0, min_stake: 0, initialized: false }
    }

    /// The record before the singleton is created.
    #[verifier::when_used_as_spec(spec_vacant)]
    pub fn vacant() -> (c: Config)
        ensures
            c == Config::spec_vacant(),
            c.wf(),
    {
        Config { admin: Address::zero(), fee_rate: 0, min_stake: 0, initialized: false }
    }
}

/// The first bound that the given fee rate and minimum stake break, the fee
/// rate first. An absent value breaks none.
pub open spec fn bounds_rejection(fee_rate: Option<u64>, min_stake: Option<u64>) -> Option<
    MarketErrorCode,
> {
    if fee_rate is Some && fee_rate->0 > MAX_FEE_RATE_BPS {
        Some(MarketErrorCode::FeeTooHigh)
    } else if min_stake is Some && min_stake->0 < MIN_STAKE_LAMPORTS {
        Some(MarketErrorCode::StakeTooLow)
    } else {
        None
    }
}

/// What creating the singleton works on: the caller, who becomes the admin,
/// and the record as it stands.
#[derive(Clone, Copy, Debug, PartialEq, Eq)]
pub struct InitializeConfig {
    pub admin: Address,
    pub config: Config,
}

/// Why creating the singleton with these values is refused, if it is.
pub open spec fn initialize_config_rejection(
    ctx: InitializeConfig,
    fee_rate: u64,
    min_stake: u64,
) -> Option<MarketErrorCode> {
    if ctx.config.initialized {
        Some(MarketErrorCode::AlreadyInitialized)
    } else {
        bounds_rejection(Some(fee_rate), Some(min_stake))
    }
}

/// Creates the configuration singleton, with the caller as its admin.
///
/// Refused with `AlreadyInitialized` when the record exists, else with
/// `FeeTooHigh` or `StakeTooLow` when a value is out of bounds.
pub fn initialize_config(ctx: &mut InitializeConfig, fee_rate: u64, min_stake: u64) -> (r: Result<
    (),
    MarketErrorCode,
>)
    ensures
        match r {
            Ok(()) => {
                &&& initialize_config_rejection(*old(ctx), fee_rate, min_stake) is None
                &&& *final(ctx) == (InitializeConfig {
                    admin: old(ctx).admin,
                    config: Config {
                        admin: old(ctx).admin,
                        fee_rate,
                        min_stake,
                        initialized: true,
                    },
                })
            },
            Err(e) => {
                &&& initialize_config_rejection(*old(ctx), fee_rate, min_stake) == Some(e)
                &&& *final(ctx) == *old(ctx)
            },
        },
        r is Ok ==> final(ctx).config.initialized && final(ctx).config.bounded(),
        old(ctx).config.wf() ==> final(ctx).config.wf(),
{
    if ctx.config.initialized {
        return Err(MarketErrorCode::AlreadyInitialized);
    }
    if fee_rate > MAX_FEE_RATE_BPS {
        return Err(MarketErrorCode::FeeTooHigh);
    }
    if min_stake < MIN_STAKE_LAMPORTS {
        return Err(MarketErrorCode::StakeTooLow);
    }
    ctx.config.admin = ctx.admin;
    ctx.config.fee_rate = fee_rate;
    ctx.config.min_stake = min_stake;
    ctx.config.initialized = true;
    Ok(())
}

/// What changing the parameters works on: the caller and the record.
#[derive(Clone, Copy, Debug, PartialEq, Eq)]
pub struct UpdateConfig {
    pub admin: Address,
    pub config: Config,
}

/// Why changing the parameters is refused, if it is.
pub open spec fn update_config_rejection(
    ctx: UpdateConfig,
    fee_rate_bps: Option<u64>,
    min_stake_lamports: Option<u64>,
) -> Option<MarketErrorCode> {
    if !ctx.config.initialized {
        Some(MarketErrorCode::ConfigNotInitialized)
    } else if ctx.admin != ctx.config.admin {
        Some(MarketErrorCode::Unauthorized)
    } else {
        bounds_rejection(fee_rate_bps, min_stake_lamports)
    }
}

/// The record after a change: a present value replaces the old one, an
/// absent one leaves it.
pub open spec fn updated_config(
    config: Config,
    fee_rate_bps: Option<u64>,
    min_stake_lamports: Option<u64>,
) -> Config {
    Config {
        admin: config.admin,
        fee_rate: if fee_rate_bps is Some {
            fee_rate_bps->0
        } else {
            config.fee_rate
        },
        min_stake: if min_stake_lamports is Some {
            min_stake_lamports->0
        } else {
            config.min_stake
        },
        initialized: config.initialized,
    }
}

/// Changes the fee rate, the minimum stake, both or neither.
///
/// Refused with `ConfigNotInitialized` when the singleton is absent, else
/// with `Unauthorized` unless the caller is its admin, else with
/// `FeeTooHigh` or `StakeTooLow` when a present value is out of bounds.
pub fn update_config(
    ctx: &mut UpdateConfig,
    fee_rate_bps: Option<u64>,
    min_stake_lamports: Option<u64>,
) -> (r: Result<(), MarketErrorCode>)
    ensures
        match r {
            Ok(()) => {
                &&& update_config_rejection(*old(ctx), fee_rate_bps, min_stake_lamports) is None
                &&& final(ctx).admin == old(ctx).admin
                &&& final(ctx).config == updated_config(
                    old(ctx).config,
                    fee_rate_bps,
                    min_stake_lamports,
                )
            },
            Err(e) => {
                &&& update_config_rejection(*old(ctx), fee_rate_bps, min_stake_lamports) == Some(e)
                &&& *final(ctx) == *old(ctx)
            },
        },
        old(ctx).config.wf() ==> final(ctx).config.wf(),
        r is Ok && old(ctx).config.wf() ==> final(ctx).config.bounded(),
{
    if !ctx.config.initialized {
        return Err(MarketErrorCode::ConfigNotInitialized);
    }
    if ctx.admin != ctx.config.admin {
        return Err(MarketErrorCode::Unauthorized);
    }
    if let Some(fee_rate) = fee_rate_bps {
        if fee_rate > MAX_FEE_RATE_BPS {
            return Err(MarketErrorCode::FeeTooHigh);
        }
    }
    if let Some(min_stake) = min_stake_lamports {
        if min_stake < MIN_STAKE_LAMPORTS {
            return Err(MarketErrorCode::StakeTooLow);
        }
    }
    if let Some(fee_rate) = fee_rate_bps {
        ctx.config.fee_rate = fee_rate;
    }
    if let Some(min_stake) = min_stake_lamports {
        ctx.config.min_stake = min_stake;
    }
    Ok(())
}

/// Creating the singleton leaves it inside the bounds or fails with the
/// error of the bound that is broken: on a vacant record a fee rate above
/// the maximum gives `FeeTooHigh`, else a minimum stake below the floor
/// gives `StakeTooLow`, else the record is created with both values.
pub proof fn lemma_initialize_config_validates(ctx: InitializeConfig, fee_rate: u64, min_stake: u64)
    requires
        !ctx.config.initialized,
    ensures
        fee_rate > MAX_FEE_RATE_BPS ==> initialize_config_rejection(ctx, fee_rate, min_stake)
            == Some(MarketErrorCode::FeeTooHigh),
        fee_rate <= MAX_FEE_RATE_BPS && min_stake < MIN_STAKE_LAMPORTS
            ==> initialize_config_rejection(ctx, fee_rate, min_stake) == Some(
            MarketErrorCode::StakeTooLow,
        ),
        initialize_config_rejection(ctx, fee_rate, min_stake) is None <==> fee_rate
            <= MAX_FEE_RATE_BPS && min_stake >= MIN_STAKE_LAMPORTS,
{
}

/// Changing the parameters leaves them inside the bounds or fails with the
/// error of the bound that is broken: when the admin of an existing
/// singleton asks, a present fee rate above the maximum gives `FeeTooHigh`
/// whatever the minimum stake, else a present minimum stake below the floor
/// gives `StakeTooLow`, else the change is made and a bounded record stays
/// bounded.
pub proof fn lemma_update_config_validates(
    ctx: UpdateConfig,
    fee_rate_bps: Option<u64>,
    min_stake_lamports: Option<u64>,
)
    requires
        ctx.config.initialized,
        ctx.admin == ctx.config.admin,
    ensures
        fee_rate_bps is Some && fee_rate_bps->0 > MAX_FEE_RATE_BPS ==> update_config_rejection(
            ctx,
            fee_rate_bps,
            min_stake_lamports,
        ) == Some(MarketErrorCode::FeeTooHigh),
        !(fee_rate_bps is Some && fee_rate_bps->0 > MAX_FEE_RATE_BPS) && min_stake_lamports is Some
            && min_stake_lamports->0 < MIN_STAKE_LAMPORTS ==> update_config_rejection(
            ctx,
            fee_rate_bps,
            min_stake_lamports,
        ) == Some(MarketErrorCode::StakeTooLow),
        update_config_rejection(ctx, fee_rate_bps, min_stake_lamports) is None <==> (fee_rate_bps
            is Some ==> fee_rate_bps->0 <= MAX_FEE_RATE_BPS) && (min_stake_lamports is Some
            ==> min_stake_lamports->0 >= MIN_STAKE_LAMPORTS),
        update_config_rejection(ctx, fee_rate_bps, min_stake_lamports) is None
            && ctx.config.bounded() ==> updated_config(
            ctx.config,
            fee_rate_bps,
            min_stake_lamports,
        ).bounded(),
{
}

} // verus!
