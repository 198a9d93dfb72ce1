//! The engine: the configuration singleton, the registry of markets and the
//! ledger of predictions, behind one entry point per operation.
//!
//! Every operation takes the engine by `&mut`, so two operations never
//! interleave, and a refused operation leaves the engine as it was.

use vstd::prelude::*;
use crate::address::Address;
use crate::config::{
    initialize_config,
    initialize_config_rejection,
    update_config,
    update_config_rejection,
    updated_config,
    Config,
    InitializeConfig,
    UpdateConfig,
};
use crate::error::{InsufficientFunds, MarketErrorCode};
use crate::ledger::{
    distinct_markets,
    distinct_receipts,
    has_market,
    has_prediction,
    lemma_consistent_after_push,
    lemma_consistent_after_resolution,
    lemma_consistent_after_stake,
    lemma_consistent_transfers,
    lemma_market_map_push,
    lemma_market_map_update,
    lemma_prediction_map_changed,
    lemma_prediction_map_push,
    lemma_prediction_map_update,
    lemma_predictions_keep_their_markets,
    lemma_sums_of_unused_market,
    lookup_market,
    lookup_prediction,
    market_consistent,
    market_index,
    market_map,
    prediction_index,
    prediction_map,
    staked,
};
use crate::market::{
    fresh_market,
    initialize_market,
    initialize_market_rejection,
    InitializeMarket,
    Market,
    MarketInitArgs,
    MarketRef,
};
use crate::payout::{
    check_claim,
    claim_payout,
    claim_precheck,
    claim_rejection,
    all_claimed,
    is_payout_of,
    lemma_payout_fits,
    payout_amount,
    lemma_settlement_conservation,
    market_fee,
    market_pool,
    payouts_claimed,
    payouts_total,
    remainder,
    ClaimPayout,
    Payout,
};
use crate::prediction::{
    check_prediction,
    place_prediction,
    placed_prediction,
    prediction_precheck,
    prediction_rejection,
    Deposit,
    PlacePredictionCtx,
    PredictionData,
};
use crate::settlement::{
    resolution_rejection,
    resolve_market,
    resolved_market,
    score_total,
    scored,
    scored_one,
    ResolveMarket,
};

verus! {

/// The state of the protocol.
#[derive(Debug)]
pub struct Engine {
    config: Config,
    markets: Vec<Market>,
    predictions: Vec<PredictionData>,
}

/// What an engine holds: the configuration, the markets in the order of
/// their creation and the predictions in the order of their placing.
pub struct EngineView {
    pub config: Config,
    pub markets: Seq<Market>,
    pub predictions: Seq<PredictionData>,
}

impl EngineView {
    /// The invariant of the engine: the configuration is bounded and is there
    /// once a market is; references and receipts are unique; every
    /// prediction is on a market of the registry; and every market is
    /// consistent with the predictions on it.
    pub open spec fn wf(self) -> bool {
        &&& self.config.wf()
        &&& self.markets.len() > 0 ==> self.config.initialized
        &&& distinct_markets(self.markets)
        &&& distinct_receipts(self.predictions)
        &&& forall|j: int|
            0 <= j < self.predictions.len() ==> has_market(
                self.markets,
                (#[trigger] self.predictions[j]).market,
            )
        &&& forall|i: int|
            0 <= i < self.markets.len() ==> market_consistent(
                self.predictions,
                #[trigger] self.markets[i],
            )
    }

    /// The registry as a map from references to markets.
    pub open spec fn market_map(self) -> Map<MarketRef, Market> {
        market_map(self.markets)
    }

    /// The ledger as a map from receipts to predictions.
    pub open spec fn prediction_map(self) -> Map<Address, PredictionData> {
        prediction_map(self.predictions)
    }

    /// The state after the market `market` is created.
    pub open spec fn created(self, market: Market) -> EngineView {
        EngineView { markets: self.markets.push(market), ..self }
    }

    /// The state after the prediction `record` is placed: it is the last of
    /// the ledger, and its stake is in the reserve of its market.
    pub open spec fn placed(self, record: PredictionData) -> EngineView {
        EngineView {
            config: self.config,
            markets: self.markets.update(
                market_index(self.markets, record.market),
                Market {
                    sol_reserve: (self.market_map()[record.market].sol_reserve + record.stake) as u64,
                    ..self.market_map()[record.market]
                },
            ),
            predictions: self.predictions.push(record),
        }
    }

    /// The state after the market under `key` is resolved with `final_mcap`.
    pub open spec fn resolved(self, key: MarketRef, final_mcap: u64) -> EngineView {
        EngineView {
            config: self.config,
            markets: self.markets.update(
                market_index(self.markets, key),
                resolved_market(
                    self.market_map()[key],
                    final_mcap,
                    score_total(self.predictions, key, final_mcap) as u64,
                    self.config.fee_rate,
                ),
            ),
            predictions: scored(self.predictions, key, final_mcap),
        }
    }

    /// The state after the payout of the prediction under `receipt` is
    /// claimed.
    pub open spec fn claimed(self, receipt: Address) -> EngineView {
        EngineView {
            predictions: self.predictions.update(
                prediction_index(self.predictions, receipt),
                PredictionData { claimed: true, ..self.prediction_map()[receipt] },
            ),
            ..self
        }
    }

    /// The market that `create_market` makes under `key` at time `now`.
    pub open spec fn new_market(self, key: MarketRef, duration_seconds: i64, now: i64) -> Market {
        fresh_market(
            MarketInitArgs {
                admin: self.config.admin,
                token_address: key.token_address,
                market_mint: key.market_mint,
                start_ts: now,
                end_ts: (now + duration_seconds) as i64,
                bump: 0,
            },
        )
    }

    /// This state can come after `before`: the admin stays; no market and no
    /// prediction is lost or moved; a market keeps its reference, its admin
    /// and its window, its reserve never shrinks, and once it is resolved it
    /// never changes; a prediction changes in nothing but its score, which
    /// is set once, and its payout flag, which is never taken back.
    pub open spec fn follows(self, before: EngineView) -> bool {
        &&& before.config.initialized ==> self.config.initialized && self.config.admin
            == before.config.admin
        &&& before.markets.len() <= self.markets.len()
        &&& forall|i: int|
            0 <= i < before.markets.len() ==> {
                &&& (#[trigger] self.markets[i]).key() == before.markets[i].key()
                &&& self.markets[i].admin == before.markets[i].admin
                &&& self.markets[i].start_ts == before.markets[i].start_ts
                &&& self.markets[i].end_ts == before.markets[i].end_ts
                &&& self.markets[i].sol_reserve >= before.markets[i].sol_reserve
                &&& before.markets[i].resolved ==> self.markets[i] == before.markets[i]
            }
        &&& before.predictions.len() <= self.predictions.len()
        &&& forall|j: int|
            0 <= j < before.predictions.len() ==> {
                &&& (#[trigger] self.predictions[j]) == PredictionData {
                    score: self.predictions[j].score,
                    claimed: self.predictions[j].claimed,
                    ..before.predictions[j]
                }
                &&& before.predictions[j].score is Some ==> self.predictions[j].score
                    == before.predictions[j].score
                &&& before.predictions[j].claimed ==> self.predictions[j].claimed
            }
    }

    /// What creating the singleton by `admin` works on.
    pub open spec fn initialize_config_ctx(self, admin: Address) -> InitializeConfig {
        InitializeConfig { admin, config: self.config }
    }

    /// What changing the parameters by `admin` works on.
    pub open spec fn update_config_ctx(self, admin: Address) -> UpdateConfig {
        UpdateConfig { admin, config: self.config }
    }

    /// What creating the market under `key` by `admin` works on.
    pub open spec fn initialize_market_ctx(self, admin: Address, key: MarketRef) -> InitializeMarket {
        InitializeMarket {
            admin,
            config: self.config,
            market: lookup_market(self.markets, key),
            market_bump: 0,
        }
    }

    /// What placing a prediction by `user` on the market under `key` with
    /// the receipt `receipt` works on.
    pub open spec fn prediction_ctx(self, user: Address, key: MarketRef, receipt: Address) -> PlacePredictionCtx {
        PlacePredictionCtx {
            user,
            market: lookup_market(self.markets, key),
            config: self.config,
            prediction_token_mint: receipt,
            prediction_data: lookup_prediction(self.predictions, receipt),
            prediction_bump: 0,
        }
    }

    /// What claiming the payout of the prediction under `receipt` works on.
    pub open spec fn claim_ctx(self, receipt: Address) -> ClaimPayout {
        ClaimPayout {
            market: match lookup_prediction(self.predictions, receipt) {
                Some(p) => lookup_market(self.markets, p.market),
                None => None,
            },
            prediction: lookup_prediction(self.predictions, receipt),
        }
    }
}

/// What holds from one state to the next holds along any run of
/// operations.
pub proof fn lemma_follows_is_transitive(first: EngineView, second: EngineView, third: EngineView)
    requires
        second.follows(first),
        third.follows(second),
    ensures
        third.follows(first),
{
    assert forall|i: int| 0 <= i < first.markets.len() implies {
        &&& (#[trigger] third.markets[i]).key() == first.markets[i].key()
        &&& third.markets[i].admin == first.markets[i].admin
        &&& third.markets[i].start_ts == first.markets[i].start_ts
        &&& third.markets[i].end_ts == first.markets[i].end_ts
        &&& third.markets[i].sol_reserve >= first.markets[i].sol_reserve
        &&& first.markets[i].resolved ==> third.markets[i] == first.markets[i]
    } by {
        assert(second.markets[i].key() == first.markets[i].key());
    }
    assert forall|j: int| 0 <= j < first.predictions.len() implies {
        &&& (#[trigger] third.predictions[j]) == PredictionData {
            score: third.predictions[j].score,
            claimed: third.predictions[j].claimed,
            ..first.predictions[j]
        }
        &&& first.predictions[j].score is Some ==> third.predictions[j].score
            == first.predictions[j].score
        &&& first.predictions[j].claimed ==> third.predictions[j].claimed
    } by {
        assert(second.predictions[j].stake == first.predictions[j].stake);
    }
}

/// The reserve of every market is the sum of the stakes of the predictions
/// on it, whatever operations led to the state.
pub proof fn lemma_reserve_is_staked(e: EngineView, key: MarketRef)
    requires
        e.wf(),
        has_market(e.markets, key),
    ensures
        lookup_market(e.markets, key)->0.sol_reserve == staked(e.predictions, key),
{
    let i = market_index(e.markets, key);
    assert(market_consistent(e.predictions, e.markets[i]));
}

/// Settlement in the engine neither creates nor destroys value: of a
/// resolved market the fee, all payouts and the remainder fill the reserve
/// exactly; the payouts claimed so far, the fee and the remainder never
/// exceed it, and equal it once every prediction has claimed.
pub proof fn lemma_engine_conserves(e: EngineView, key: MarketRef)
    requires
        e.wf(),
        has_market(e.markets, key),
        lookup_market(e.markets, key)->0.resolved,
    ensures
        ({
            let m = lookup_market(e.markets, key)->0;
            &&& 0 <= market_fee(m) <= m.sol_reserve
            &&& 0 <= payouts_claimed(e.predictions, m) <= payouts_total(e.predictions, m)
            &&& 0 <= remainder(e.predictions, m)
            &&& market_fee(m) + payouts_total(e.predictions, m) + remainder(e.predictions, m)
                == m.sol_reserve
            &&& payouts_claimed(e.predictions, m) + market_fee(m) + remainder(e.predictions, m)
                <= m.sol_reserve
            &&& all_claimed(e.predictions, key) ==> payouts_claimed(e.predictions, m) + market_fee(
                m,
            ) + remainder(e.predictions, m) == m.sol_reserve
        }),
{
    let i = market_index(e.markets, key);
    assert(market_consistent(e.predictions, e.markets[i]));
    lemma_settlement_conservation(e.predictions, e.markets[i]);
}

impl View for Engine {
    type V = EngineView;

    closed spec fn view(&self) -> EngineView {
        EngineView {
            config: self.config,
            markets: self.markets@,
            predictions: self.predictions@,
        }
    }
}

impl Engine {
    /// The invariant of the engine holds.
    pub open spec fn wf(&self) -> bool {
        self@.wf()
    }

    /// An engine without configuration, markets or predictions.
    pub fn new() -> (e: Engine)
        ensures
            e.wf(),
            e@ == (EngineView {
                config: Config::vacant(),
                markets: Seq::empty(),
                predictions: Seq::empty(),
            }),
    {
        Engine { config: Config::vacant(), markets: Vec::new(), predictions: Vec::new() }
    }

    /// The configuration record.
    pub fn config(&self) -> (c: Config)
        ensures
            c == self@.config,
    {
        self.config
    }

    /// The number of markets.
    pub fn market_count(&self) -> (n: usize)
        ensures
            n == self@.markets.len(),
    {
        self.markets.len()
    }

    /// The number of predictions.
    pub fn prediction_count(&self) -> (n: usize)
        ensures
            n == self@.predictions.len(),
    {
        self.predictions.len()
    }

    fn find_market(&self, key: &MarketRef) -> (r: Option<usize>)
        requires
            self.wf(),
        ensures
            match r {
                Some(i) => {
                    &&& i < self@.markets.len()
                    &&& has_market(self@.markets, *key)
                    &&& i == market_index(self@.markets, *key)
                    &&& self@.markets[i as int].key() == *key
                },
                None => !has_market(self@.markets, *key),
            },
    {
        let mut i: usize = 0;
        while i < self.markets.len()
            invariant
                self.wf(),
                i <= self.markets.len(),
                forall|k: int| 0 <= k < i ==> (#[trigger] self.markets@[k]).key() != *key,
            decreases self.markets.len() - i,
        {
            if self.markets[i].key() == *key {
                assert(self@.markets[i as int].key() == *key);
                return Some(i);
            }
            i += 1;
        }
        None
    }

    fn find_prediction(&self, receipt: &Address) -> (r: Option<usize>)
        requires
            self.wf(),
        ensures
            match r {
                Some(j) => {
                    &&& j < self@.predictions.len()
                    &&& has_prediction(self@.predictions, *receipt)
                    &&& j == prediction_index(self@.predictions, *receipt)
                    &&& self@.predictions[j as int].prediction_mint == *receipt
                },
                None => !has_prediction(self@.predictions, *receipt),
            },
    {
        let mut j: usize = 0;
        while j < self.predictions.len()
            invariant
                self.wf(),
                j <= self.predictions.len(),
                forall|k: int|
                    0 <= k < j ==> (#[trigger] self.predictions@[k]).prediction_mint != *receipt,
            decreases self.predictions.len() - j,
        {
            if self.predictions[j].prediction_mint == *receipt {
                assert(self@.predictions[j as int].prediction_mint == *receipt);
                return Some(j);
            }
            j += 1;
        }
        None
    }

    /// The market under `key`, if there is one.
    pub fn market(&self, key: &MarketRef) -> (m: Option<Market>)
        requires
            self.wf(),
        ensures
            m == lookup_market(self@.markets, *key),
            m is Some == self@.market_map().contains_key(*key),
            m is Some ==> m->0 == self@.market_map()[*key],
            m is Some ==> m->0.key() == *key && market_consistent(self@.predictions, m->0),
    {
        match self.find_market(key) {
            Some(i) => Some(self.markets[i]),
            None => None,
        }
    }

    /// The prediction under `receipt`, if there is one.
    pub fn prediction(&self, receipt: &Address) -> (p: Option<PredictionData>)
        requires
            self.wf(),
        ensures
            p == lookup_prediction(self@.predictions, *receipt),
            p is Some == self@.prediction_map().contains_key(*receipt),
            p is Some ==> p->0 == self@.prediction_map()[*receipt],
            p is Some ==> p->0.prediction_mint == *receipt && has_market(
                self@.markets,
                p->0.market,
            ),
    {
        match self.find_prediction(receipt) {
            Some(j) => Some(self.predictions[j]),
            None => None,
        }
    }

    /// Creates the configuration singleton, with `admin` as its admin.
    ///
    /// Refused with `AlreadyInitialized` when the singleton exists, else with
    /// `FeeTooHigh` or `StakeTooLow` when a value is out of bounds.
    pub fn initialize_config(&mut self, admin: Address, fee_rate: u64, min_stake: u64) -> (r:
        Result<(), MarketErrorCode>)
        requires
            old(self).wf(),
        ensures
            final(self).wf(),
            final(self)@.follows(old(self)@),
            match r {
                Ok(()) => {
                    &&& initialize_config_rejection(
                        old(self)@.initialize_config_ctx(admin),
                        fee_rate,
                        min_stake,
                    ) is None
                    &&& final(self)@ == (EngineView {
                        config: Config { admin, fee_rate, min_stake, initialized: true },
                        ..old(self)@
                    })
                },
                Err(e) => {
                    &&& initialize_config_rejection(
                        old(self)@.initialize_config_ctx(admin),
                        fee_rate,
                        min_stake,
                    ) == Some(e)
                    &&& final(self)@ == old(self)@
                },
            },
    {
        let mut ctx = InitializeConfig { admin, config: self.config };
        match initialize_config(&mut ctx, fee_rate, min_stake) {
            Ok(()) => {
                self.config = ctx.config;
                Ok(())
            },
            Err(e) => Err(e),
        }
    }

    /// Changes the fee rate, the minimum stake, both or neither. Markets and
    /// predictions see the new values from the next operation on.
    ///
    /// Refused with `ConfigNotInitialized` when the singleton is absent, else
    /// with `Unauthorized` unless `admin` is its admin, else with
    /// `FeeTooHigh` or `StakeTooLow` when a present value is out of bounds.
    pub fn update_config(
        &mut self,
        admin: Address,
        fee_rate_bps: Option<u64>,
        min_stake_lamports: Option<u64>,
    ) -> (r: Result<(), MarketErrorCode>)
        requires
            old(self).wf(),
        ensures
            final(self).wf(),
            final(self)@.follows(old(self)@),
            match r {
                Ok(()) => {
                    &&& update_config_rejection(
                        old(self)@.update_config_ctx(admin),
                        fee_rate_bps,
                        min_stake_lamports,
                    ) is None
                    &&& final(self)@ == (EngineView {
                        config: updated_config(
                            old(self)@.config,
                            fee_rate_bps,
                            min_stake_lamports,
                        ),
                        ..old(self)@
                    })
                },
                Err(e) => {
                    &&& update_config_rejection(
                        old(self)@.update_config_ctx(admin),
                        fee_rate_bps,
                        min_stake_lamports,
                    ) == Some(e)
                    &&& final(self)@ == old(self)@
                },
            },
    {
        let mut ctx = UpdateConfig { admin, config: self.config };
        match update_config(&mut ctx, fee_rate_bps, min_stake_lamports) {
            Ok(()) => {
                self.config = ctx.config;
                Ok(())
            },
            Err(e) => Err(e),
        }
    }

    /// Creates the market on `key.token_address` whose window is marked by
    /// `key.market_mint`, open from `now` for `duration_seconds`, with the
    /// configuration's admin as its admin and resolver. The engine keeps its
    /// records itself, so it leaves the bump of a storage address at zero.
    ///
    /// Refused with `ConfigNotInitialized` when the configuration is absent,
    /// else with `Unauthorized` unless `admin` is its admin, else with
    /// `MarketAlreadyExists` when a market exists under `key`, else with
    /// `InvalidTimeRange` unless the duration is positive, else with
    /// `CalculationOverflow` when the end of the window is no `i64`.
    pub fn create_market(
        &mut self,
        admin: Address,
        key: MarketRef,
        duration_seconds: i64,
        now: i64,
    ) -> (r: Result<(), MarketErrorCode>)
        requires
            old(self).wf(),
        ensures
            final(self).wf(),
            final(self)@.follows(old(self)@),
            match r {
                Ok(()) => {
                    &&& initialize_market_rejection(
                        old(self)@.initialize_market_ctx(admin, key),
                        duration_seconds,
                        now,
                    ) is None
                    &&& final(self)@ == old(self)@.created(
                        old(self)@.new_market(key, duration_seconds, now),
                    )
                    &&& final(self)@.market_map() == old(self)@.market_map().insert(
                        key,
                        old(self)@.new_market(key, duration_seconds, now),
                    )
                },
                Err(e) => {
                    &&& initialize_market_rejection(
                        old(self)@.initialize_market_ctx(admin, key),
                        duration_seconds,
                        now,
                    ) == Some(e)
                    &&& final(self)@ == old(self)@
                },
            },
    {
        let found = self.market(&key);
        let mut ctx = InitializeMarket { admin, config: self.config, market: found, market_bump: 0 };
        match initialize_market(&mut ctx, key.token_address, key.market_mint, duration_seconds, now) {
            Ok(()) => {
                let market = ctx.market.unwrap();
                proof {
                    assert(market.key() == key);
                    assert forall|j: int| 0 <= j < self@.predictions.len() implies (
                    #[trigger] self@.predictions[j]).market != key by {
                        assert(has_market(self@.markets, self@.predictions[j].market));
                    }
                    lemma_sums_of_unused_market(self@.predictions, key);
                    lemma_market_map_push(self@.markets, market);
                }
                self.markets.push(market);
                proof {
                    let before = old(self)@.markets;
                    let after = self@.markets;
                    assert(after == before.push(market));
                    lemma_predictions_keep_their_markets(
                        before,
                        after,
                        self@.predictions,
                        self@.predictions,
                    );
                    assert forall|i: int| 0 <= i < after.len() implies market_consistent(
                        self@.predictions,
                        #[trigger] after[i],
                    ) by {
                        if i < before.len() {
                            assert(after[i] == before[i]);
                        }
                    }
                }
                Ok(())
            },
            Err(e) => Err(e),
        }
    }

    /// Decides, before any funds move, whether `user` can place a
    /// prediction of `stake` at time `now` on the market under `key`, with
    /// the receipt `receipt`. On `Ok` the caller is to make the deposit that
    /// is returned, `stake` from `user` into the market's custody, and to
    /// hand the outcome to `place_prediction`.
    ///
    /// Refused with `MarketNotFound` when no market is under `key`, else
    /// with `ReceiptAlreadyUsed` when a prediction is under `receipt`, else
    /// with `MarketNotStarted` before the window, `MarketEnded` from its end
    /// on, `AlreadyResolved` on a resolved market, `StakeTooLow` below the
    /// minimum stake as it stands, `CalculationOverflow` when the reserve
    /// with the stake would leave the range of `u64`.
    pub fn check_prediction(
        &self,
        user: Address,
        key: MarketRef,
        receipt: Address,
        stake: u64,
        now: i64,
    ) -> (r: Result<Deposit, MarketErrorCode>)
        requires
            self.wf(),
        ensures
            match r {
                Ok(deposit) => {
                    &&& prediction_precheck(
                        self@.prediction_ctx(user, key, receipt),
                        stake,
                        now,
                    ) is None
                    &&& deposit == (Deposit { from: user, market: key, amount: stake })
                },
                Err(e) => prediction_precheck(self@.prediction_ctx(user, key, receipt), stake, now)
                    == Some(e),
            },
    {
        let ctx = PlacePredictionCtx {
            user,
            market: self.market(&key),
            config: self.config,
            prediction_token_mint: receipt,
            prediction_data: self.prediction(&receipt),
            prediction_bump: 0,
        };
        check_prediction(&ctx, stake, now)
    }

    /// Places the prediction of `user` on the market under `key`: `stake` on
    /// `guessed_mcap` at time `now`, with the receipt `receipt`, after the
    /// transfer of the stake into custody ended as `transfer` says. On
    /// success the stake is added to the market's reserve and the record is
    /// added to the ledger.
    ///
    /// Refused as `check_prediction` refuses, else with `InsufficientFunds`
    /// when the transfer failed.
    pub fn place_prediction(
        &mut self,
        user: Address,
        key: MarketRef,
        receipt: Address,
        guessed_mcap: u64,
        stake: u64,
        now: i64,
        transfer: Result<(), InsufficientFunds>,
    ) -> (r: Result<(), MarketErrorCode>)
        requires
            old(self).wf(),
        ensures
            final(self).wf(),
            final(self)@.follows(old(self)@),
            match r {
                Ok(()) => {
                    &&& prediction_rejection(
                        old(self)@.prediction_ctx(user, key, receipt),
                        stake,
                        now,
                        transfer,
                    ) is None
                    &&& final(self)@ == old(self)@.placed(
                        placed_prediction(
                            old(self)@.prediction_ctx(user, key, receipt),
                            guessed_mcap,
                            stake,
                            now,
                        ),
                    )
                    &&& final(self)@.market_map() == old(self)@.market_map().insert(
                        key,
                        Market {
                            sol_reserve: (old(self)@.market_map()[key].sol_reserve + stake) as u64,
                            ..old(self)@.market_map()[key]
                        },
                    )
                    &&& final(self)@.prediction_map() == old(self)@.prediction_map().insert(
                        receipt,
                        placed_prediction(
                            old(self)@.prediction_ctx(user, key, receipt),
                            guessed_mcap,
                            stake,
                            now,
                        ),
                    )
                },
                Err(e) => {
                    &&& prediction_rejection(
                        old(self)@.prediction_ctx(user, key, receipt),
                        stake,
                        now,
                        transfer,
                    ) == Some(e)
                    &&& final(self)@ == old(self)@
                },
            },
            r is Ok ==> old(self)@.market_map()[key].start_ts <= now < old(
                self,
            )@.market_map()[key].end_ts && stake >= old(self)@.config.min_stake,
    {
        let found = self.find_market(&key);
        let mut ctx = PlacePredictionCtx {
            user,
            market: match found {
                Some(i) => Some(self.markets[i]),
                None => None,
            },
            config: self.config,
            prediction_token_mint: receipt,
            prediction_data: self.prediction(&receipt),
            prediction_bump: 0,
        };
        match place_prediction(&mut ctx, guessed_mcap, stake, now, transfer) {
            Ok(()) => {
                let i = found.unwrap();
                let market = ctx.market.unwrap();
                let record = ctx.prediction_data.unwrap();
                self.markets.set(i, market);
                self.predictions.push(record);
                proof {
                    let before = old(self)@;
                    let after = self@;
                    let was = before.markets[i as int];
                    assert(after.markets == before.markets.update(i as int, market));
                    assert(after.predictions == before.predictions.push(record));
                    assert(market.key() == key && was.key() == key);
                    lemma_market_map_update(before.markets, i as int, market);
                    lemma_prediction_map_push(before.predictions, record);
                    assert forall|k: int| 0 <= k < after.markets.len() implies (
                    #[trigger] after.markets[k]).key() == before.markets[k].key() by {}
                    assert(after.markets[i as int].key() == record.market);
                    lemma_predictions_keep_their_markets(
                        before.markets,
                        after.markets,
                        before.predictions,
                        after.predictions,
                    );
                    assert forall|k: int| 0 <= k < after.markets.len() implies market_consistent(
                        after.predictions,
                        #[trigger] after.markets[k],
                    ) by {
                        assert(market_consistent(before.predictions, before.markets[k]));
                        if k == i {
                            lemma_consistent_after_stake(before.predictions, record, was);
                        } else {
                            assert(after.markets[k] == before.markets[k]);
                            lemma_consistent_after_push(
                                before.predictions,
                                record,
                                before.markets[k],
                            );
                        }
                    }
                }
                Ok(())
            },
            Err(e) => Err(e),
        }
    }

    /// Resolves the market under `key` with the final value `final_mcap` at
    /// time `now`: every prediction on it is scored, and the market keeps the
    /// final value, the sum of the scores and the fee rate of this moment.
    /// From then on the market takes no prediction and no resolution.
    ///
    /// Refused with `MarketNotFound` when no market is under `key`, else
    /// with `Unauthorized` unless `admin` is the market's admin, else with
    /// `MarketNotEnded` before the end of the window, else with
    /// `AlreadyResolved` on a resolved market, else with
    /// `CalculationOverflow` when the sum of the scores is no `u64`.
    pub fn resolve_market(&mut self, admin: Address, key: MarketRef, final_mcap: u64, now: i64) -> (r:
        Result<(), MarketErrorCode>)
        requires
            old(self).wf(),
        ensures
            final(self).wf(),
            final(self)@.follows(old(self)@),
            match r {
                Ok(()) => {
                    &&& resolution_rejection(
                        admin,
                        lookup_market(old(self)@.markets, key),
                        old(self)@.predictions,
                        final_mcap,
                        now,
                    ) is None
                    &&& final(self)@ == old(self)@.resolved(key, final_mcap)
                    &&& final(self)@.market_map() == old(self)@.market_map().insert(
                        key,
                        resolved_market(
                            old(self)@.market_map()[key],
                            final_mcap,
                            score_total(old(self)@.predictions, key, final_mcap) as u64,
                            old(self)@.config.fee_rate,
                        ),
                    )
                    &&& final(self)@.prediction_map() == old(self)@.prediction_map().map_values(
                        |p: PredictionData| scored_one(p, key, final_mcap),
                    )
                },
                Err(e) => {
                    &&& resolution_rejection(
                        admin,
                        lookup_market(old(self)@.markets, key),
                        old(self)@.predictions,
                        final_mcap,
                        now,
                    ) == Some(e)
                    &&& final(self)@ == old(self)@
                },
            },
            lookup_market(old(self)@.markets, key) is Some && lookup_market(
                old(self)@.markets,
                key,
            )->0.resolved ==> r is Err,
    {
        let found = self.find_market(&key);
        let mut ctx = ResolveMarket {
            admin,
            market: match found {
                Some(i) => Some(self.markets[i]),
                None => None,
            },
            config: self.config,
            predictions: Vec::new(),
        };
        core::mem::swap(&mut ctx.predictions, &mut self.predictions);
        let r = resolve_market(&mut ctx, final_mcap, now);
        core::mem::swap(&mut ctx.predictions, &mut self.predictions);
        match r {
            Ok(()) => {
                let i = found.unwrap();
                let market = ctx.market.unwrap();
                self.markets.set(i, market);
                proof {
                    let before = old(self)@;
                    let after = self@;
                    let was = before.markets[i as int];
                    assert(was.key() == key && market.key() == key);
                    assert(after.markets == before.markets.update(i as int, market));
                    assert(after.predictions == scored(before.predictions, key, final_mcap));
                    lemma_market_map_update(before.markets, i as int, market);
                    lemma_prediction_map_changed(
                        before.predictions,
                        after.predictions,
                        |p: PredictionData| scored_one(p, key, final_mcap),
                    );
                    assert forall|k: int| 0 <= k < after.markets.len() implies (
                    #[trigger] after.markets[k]).key() == before.markets[k].key() by {}
                    lemma_predictions_keep_their_markets(
                        before.markets,
                        after.markets,
                        before.predictions,
                        after.predictions,
                    );
                    assert forall|k: int| 0 <= k < after.markets.len() implies market_consistent(
                        after.predictions,
                        #[trigger] after.markets[k],
                    ) by {
                        assert(market_consistent(before.predictions, before.markets[k]));
                        if k == i {
                            lemma_consistent_after_resolution(
                                before.predictions,
                                was,
                                final_mcap,
                                before.config.fee_rate,
                            );
                        } else {
                            assert(after.markets[k] == before.markets[k]);
                            assert(before.markets[k].key() != key);
                            lemma_consistent_transfers(
                                before.predictions,
                                after.predictions,
                                before.markets[k],
                            );
                        }
                    }
                }
                Ok(())
            },
            Err(e) => Err(e),
        }
    }

    /// Decides, before any funds move, what the prediction under `receipt`
    /// is paid. On `Ok` the caller is to make the payout that is returned,
    /// from the custody of the prediction's market to its participant, and
    /// to hand the outcome to `claim_payout`.
    ///
    /// Refused with `PredictionNotFound` when no prediction is under
    /// `receipt`, else with `NotResolved` until its market is resolved, else
    /// with `AlreadyClaimed` when its payout flag is set.
    pub fn check_claim(&self, receipt: Address) -> (r: Result<Payout, MarketErrorCode>)
        requires
            self.wf(),
        ensures
            match r {
                Ok(payout) => {
                    &&& claim_precheck(self@.claim_ctx(receipt)) is None
                    &&& is_payout_of(
                        payout,
                        self@.claim_ctx(receipt).market->0,
                        self@.claim_ctx(receipt).prediction->0,
                    )
                },
                Err(e) => claim_precheck(self@.claim_ctx(receipt)) == Some(e),
            },
            r is Err ==> r->Err_0 == MarketErrorCode::PredictionNotFound || r->Err_0
                == MarketErrorCode::NotResolved || r->Err_0 == MarketErrorCode::AlreadyClaimed,
            r is Ok ==> r->Ok_0.amount <= market_pool(self@.claim_ctx(receipt).market->0)
                <= self@.claim_ctx(receipt).market->0.sol_reserve,
    {
        let prediction = self.prediction(&receipt);
        let ctx = ClaimPayout {
            market: match prediction {
                Some(p) => self.market(&p.market),
                None => None,
            },
            prediction,
        };
        proof {
            self.lemma_claim_is_sound(receipt);
        }
        check_claim(&ctx)
    }

    /// On a well-formed engine a claim is never refused for a missing market
    /// or for arithmetic.
    proof fn lemma_claim_is_sound(&self, receipt: Address)
        requires
            self.wf(),
        ensures
            claim_precheck(self@.claim_ctx(receipt)) != Some(MarketErrorCode::MarketNotFound),
            claim_precheck(self@.claim_ctx(receipt)) != Some(MarketErrorCode::CalculationOverflow),
            claim_precheck(self@.claim_ctx(receipt)) is None ==> payout_amount(
                self@.claim_ctx(receipt).market->0,
                self@.claim_ctx(receipt).prediction->0,
            ) <= market_pool(self@.claim_ctx(receipt).market->0)
                <= self@.claim_ctx(receipt).market->0.sol_reserve,
    {
        let ctx = self@.claim_ctx(receipt);
        if ctx.prediction is Some {
            let j = prediction_index(self@.predictions, receipt);
            let p = self@.predictions[j];
            assert(has_market(self@.markets, p.market));
            let i = market_index(self@.markets, p.market);
            let m = self@.markets[i];
            assert(market_consistent(self@.predictions, m));
            if m.resolved {
                lemma_payout_fits(self@.predictions, m, j);
            }
        }
    }

    /// Claims the payout of the prediction under `receipt`, after the
    /// transfer that `check_claim` asked for ended as `transfer` says. On
    /// success the payout flag is set and the payout that was made is
    /// returned.
    ///
    /// Refused as `check_claim` refuses, else with `InsufficientFunds` when
    /// the transfer failed.
    pub fn claim_payout(&mut self, receipt: Address, transfer: Result<(), InsufficientFunds>) -> (r:
        Result<Payout, MarketErrorCode>)
        requires
            old(self).wf(),
        ensures
            final(self).wf(),
            final(self)@.follows(old(self)@),
            match r {
                Ok(payout) => {
                    &&& claim_rejection(old(self)@.claim_ctx(receipt), transfer) is None
                    &&& is_payout_of(
                        payout,
                        old(self)@.claim_ctx(receipt).market->0,
                        old(self)@.claim_ctx(receipt).prediction->0,
                    )
                    &&& final(self)@ == old(self)@.claimed(receipt)
                    &&& final(self)@.prediction_map() == old(self)@.prediction_map().insert(
                        receipt,
                        PredictionData { claimed: true, ..old(self)@.prediction_map()[receipt] },
                    )
                },
                Err(e) => {
                    &&& claim_rejection(old(self)@.claim_ctx(receipt), transfer) == Some(e)
                    &&& final(self)@ == old(self)@
                },
            },
            r is Err ==> r->Err_0 == MarketErrorCode::PredictionNotFound || r->Err_0
                == MarketErrorCode::NotResolved || r->Err_0 == MarketErrorCode::AlreadyClaimed
                || r->Err_0 == MarketErrorCode::InsufficientFunds,
            r is Ok ==> r->Ok_0.amount <= market_pool(old(self)@.claim_ctx(receipt).market->0)
                <= old(self)@.claim_ctx(receipt).market->0.sol_reserve,
    {
        let found = self.find_prediction(&receipt);
        let prediction = match found {
            Some(j) => Some(self.predictions[j]),
            None => None,
        };
        let mut ctx = ClaimPayout {
            market: match prediction {
                Some(p) => self.market(&p.market),
                None => None,
            },
            prediction,
        };
        proof {
            self.lemma_claim_is_sound(receipt);
        }
        match claim_payout(&mut ctx, transfer) {
            Ok(payout) => {
                let j = found.unwrap();
                let record = ctx.prediction.unwrap();
                self.predictions.set(j, record);
                proof {
                    let before = old(self)@;
                    let after = self@;
                    let was = before.predictions[j as int];
                    assert(after.predictions == before.predictions.update(j as int, record));
                    assert(after.markets == before.markets);
                    lemma_prediction_map_update(before.predictions, j as int, record);
                    lemma_predictions_keep_their_markets(
                        before.markets,
                        after.markets,
                        before.predictions,
                        after.predictions,
                    );
                    let i = market_index(before.markets, was.market);
                    assert(before.markets[i].resolved);
                    assert forall|k: int| 0 <= k < after.markets.len() implies market_consistent(
                        after.predictions,
                        #[trigger] after.markets[k],
                    ) by {
                        assert(market_consistent(before.predictions, before.markets[k]));
                        if before.markets[k].key() == was.market {
                            assert(k == i);
                        }
                        lemma_consistent_transfers(
                            before.predictions,
                            after.predictions,
                            before.markets[k],
                        );
                    }
                }
                Ok(payout)
            },
            Err(e) => Err(e),
        }
    }
}

} // verus!
