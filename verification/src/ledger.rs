//! What holds between the registry of markets and the ledger of
//! predictions.

use vstd::prelude::*;
use crate::address::Address;
use crate::market::{Market, MarketRef};
use crate::payout::{recorded_scores, settlement_consistent};
use crate::prediction::PredictionData;
use crate::settlement::{score_total, scored, spec_accuracy_score};

verus! {

/// The sum of the stakes of the predictions on the market `key`.
pub open spec fn staked(predictions: Seq<PredictionData>, key: MarketRef) -> int
    decreases predictions.len(),
{
    if predictions.len() == 0 {
        0
    } else {
        staked(predictions.drop_last(), key) + if predictions.last().market == key {
            predictions.last().stake as int
        } else {
            0
        }
    }
}

/// A market exists under `key`.
pub open spec fn has_market(markets: Seq<Market>, key: MarketRef) -> bool {
    exists|i: int| 0 <= i < markets.len() && (#[trigger] markets[i]).key() == key
}

/// The place of the market under `key`, where there is one.
pub open spec fn market_index(markets: Seq<Market>, key: MarketRef) -> int {
    choose|i: int| 0 <= i < markets.len() && (#[trigger] markets[i]).key() == key
}

/// The registry as a map from references to markets.
pub open spec fn market_map(markets: Seq<Market>) -> Map<MarketRef, Market> {
    Map::new(
        |key: MarketRef| has_market(markets, key),
        |key: MarketRef| markets[market_index(markets, key)],
    )
}

/// The market under `key`, if there is one.
pub open spec fn lookup_market(markets: Seq<Market>, key: MarketRef) -> Option<Market> {
    if market_map(markets).contains_key(key) {
        Some(market_map(markets)[key])
    } else {
        None
    }
}

/// A prediction exists under `receipt`.
pub open spec fn has_prediction(predictions: Seq<PredictionData>, receipt: Address) -> bool {
    exists|j: int|
        0 <= j < predictions.len() && (#[trigger] predictions[j]).prediction_mint == receipt
}

/// The place of the prediction under `receipt`, where there is one.
pub open spec fn prediction_index(predictions: Seq<PredictionData>, receipt: Address) -> int {
    choose|j: int|
        0 <= j < predictions.len() && (#[trigger] predictions[j]).prediction_mint == receipt
}

/// The ledger as a map from receipts to predictions.
pub open spec fn prediction_map(predictions: Seq<PredictionData>) -> Map<Address, PredictionData> {
    Map::new(
        |receipt: Address| has_prediction(predictions, receipt),
        |receipt: Address| predictions[prediction_index(predictions, receipt)],
    )
}

/// The prediction under `receipt`, if there is one.
pub open spec fn lookup_prediction(predictions: Seq<PredictionData>, receipt: Address) -> Option<
    PredictionData,
> {
    if prediction_map(predictions).contains_key(receipt) {
        Some(prediction_map(predictions)[receipt])
    } else {
        None
    }
}

/// No two markets share a reference.
pub open spec fn distinct_markets(markets: Seq<Market>) -> bool {
    forall|i: int, j: int|
        0 <= i < markets.len() && 0 <= j < markets.len() && i != j ==> (#[trigger] markets[i]).key()
            != (#[trigger] markets[j]).key()
}

/// No two predictions share a receipt.
pub open spec fn distinct_receipts(predictions: Seq<PredictionData>) -> bool {
    forall|i: int, j: int|
        0 <= i < predictions.len() && 0 <= j < predictions.len() && i != j ==> (
        #[trigger] predictions[i]).prediction_mint != (#[trigger] predictions[j]).prediction_mint
}

/// What holds of one market and the predictions on it: the reserve is the
/// sum of their stakes; each was placed inside the window; while the market
/// is open to resolution none is scored or claimed; once it is resolved
/// each holds its accuracy score and the total score is their sum.
pub open spec fn market_consistent(predictions: Seq<PredictionData>, market: Market) -> bool {
    &&& market.wf()
    &&& market.sol_reserve == staked(predictions, market.key())
    &&& forall|j: int|
        0 <= j < predictions.len() && (#[trigger] predictions[j]).market == market.key() ==> {
            &&& market.start_ts <= predictions[j].timestamp < market.end_ts
            &&& !market.resolved ==> predictions[j].score is None && !predictions[j].claimed
            &&& market.resolved ==> predictions[j].score == Some(
                spec_accuracy_score(predictions[j].guessed_mcap, market.final_mcap->0) as u64,
            )
        }
    &&& market.resolved ==> settlement_consistent(predictions, market)
}

/// Two ledgers agree on the market `key`: they are as long, hold each
/// prediction on the same market, and hold the predictions on `key` with the
/// same stake and score.
pub open spec fn agree_on(a: Seq<PredictionData>, b: Seq<PredictionData>, key: MarketRef) -> bool {
    &&& a.len() == b.len()
    &&& forall|j: int|
        0 <= j < a.len() ==> {
            &&& (#[trigger] a[j]).market == b[j].market
            &&& a[j].market == key ==> a[j].stake == b[j].stake && a[j].score == b[j].score
        }
}

/// Ledgers that agree on a market give it the same stakes and scores.
pub proof fn lemma_agreeing_sums(a: Seq<PredictionData>, b: Seq<PredictionData>, key: MarketRef)
    requires
        agree_on(a, b, key),
    ensures
        staked(a, key) == staked(b, key),
        recorded_scores(a, key) == recorded_scores(b, key),
    decreases a.len(),
{
    if a.len() > 0 {
        assert(a.last() == a[a.len() - 1]);
        assert(b.last() == b[a.len() - 1]);
        assert forall|j: int| 0 <= j < a.drop_last().len() implies {
            &&& (#[trigger] a.drop_last()[j]).market == b.drop_last()[j].market
            &&& a.drop_last()[j].market == key ==> a.drop_last()[j].stake == b.drop_last()[j].stake
                && a.drop_last()[j].score == b.drop_last()[j].score
        } by {
            assert(a.drop_last()[j] == a[j]);
            assert(b.drop_last()[j] == b[j]);
        }
        lemma_agreeing_sums(a.drop_last(), b.drop_last(), key);
    }
}

/// A market without predictions has nothing staked and nothing scored.
pub proof fn lemma_sums_of_unused_market(predictions: Seq<PredictionData>, key: MarketRef)
    requires
        forall|j: int| 0 <= j < predictions.len() ==> (#[trigger] predictions[j]).market != key,
    ensures
        staked(predictions, key) == 0,
        recorded_scores(predictions, key) == 0,
    decreases predictions.len(),
{
    if predictions.len() > 0 {
        assert(predictions.last() == predictions[predictions.len() - 1]);
        assert forall|j: int| 0 <= j < predictions.drop_last().len() implies (
        #[trigger] predictions.drop_last()[j]).market != key by {
            assert(predictions.drop_last()[j] == predictions[j]);
        }
        lemma_sums_of_unused_market(predictions.drop_last(), key);
    }
}

/// One more prediction adds its stake to its own market and to no other.
pub proof fn lemma_sums_after_push(
    predictions: Seq<PredictionData>,
    p: PredictionData,
    key: MarketRef,
)
    ensures
        staked(predictions.push(p), key) == staked(predictions, key) + if p.market == key {
            p.stake as int
        } else {
            0
        },
        recorded_scores(predictions.push(p), key) == recorded_scores(predictions, key)
            + if p.market == key {
            p.score->0 as int
        } else {
            0
        },
{
    assert(predictions.push(p).drop_last() =~= predictions);
    assert(predictions.push(p).last() == p);
}

/// After resolution the scores that the ledger holds for the market add up
/// to the sum of the accuracy scores.
pub proof fn lemma_scored_sums(predictions: Seq<PredictionData>, key: MarketRef, final_mcap: u64)
    requires
        score_total(predictions, key, final_mcap) <= u64::MAX,
    ensures
        recorded_scores(scored(predictions, key, final_mcap), key) == score_total(
            predictions,
            key,
            final_mcap,
        ),
    decreases predictions.len(),
{
    let after = scored(predictions, key, final_mcap);
    if predictions.len() > 0 {
        let rest = predictions.drop_last();
        assert(after.drop_last() =~= scored(rest, key, final_mcap));
        crate::settlement::lemma_score_total_grows(
            predictions,
            key,
            final_mcap,
            predictions.len() - 1,
        );
        assert(predictions.take(predictions.len() - 1) =~= rest);
        crate::settlement::lemma_accuracy_score_bounds(predictions.last().guessed_mcap, final_mcap);
        lemma_scored_sums(rest, key, final_mcap);
        assert(after.last() == crate::settlement::scored_one(predictions.last(), key, final_mcap));
    }
}

/// A market stays consistent when the predictions on it change in nothing
/// but the payout flag, and in that only once the market is resolved.
pub proof fn lemma_consistent_transfers(
    a: Seq<PredictionData>,
    b: Seq<PredictionData>,
    market: Market,
)
    requires
        market_consistent(a, market),
        a.len() == b.len(),
        forall|j: int| 0 <= j < a.len() ==> (#[trigger] a[j]).market == b[j].market,
        forall|j: int|
            0 <= j < a.len() && (#[trigger] a[j]).market == market.key() ==> {
                &&& b[j] == PredictionData { claimed: b[j].claimed, ..a[j] }
                &&& b[j].claimed == a[j].claimed || market.resolved
            },
    ensures
        market_consistent(b, market),
{
    assert(agree_on(a, b, market.key()));
    lemma_agreeing_sums(a, b, market.key());
    assert forall|j: int|
        0 <= j < b.len() && (#[trigger] b[j]).market == market.key() implies {
        &&& market.start_ts <= b[j].timestamp < market.end_ts
        &&& !market.resolved ==> b[j].score is None && !b[j].claimed
        &&& market.resolved ==> b[j].score == Some(
            spec_accuracy_score(b[j].guessed_mcap, market.final_mcap->0) as u64,
        )
        &&& b[j].score == a[j].score
    } by {
        assert(a[j].market == market.key());
    }
}

/// A market stays consistent when a prediction is placed on another one.
pub proof fn lemma_consistent_after_push(
    predictions: Seq<PredictionData>,
    p: PredictionData,
    market: Market,
)
    requires
        market_consistent(predictions, market),
        p.market != market.key(),
    ensures
        market_consistent(predictions.push(p), market),
{
    let after = predictions.push(p);
    lemma_sums_after_push(predictions, p, market.key());
    assert forall|j: int|
        0 <= j < after.len() && (#[trigger] after[j]).market == market.key() implies {
        &&& market.start_ts <= after[j].timestamp < market.end_ts
        &&& !market.resolved ==> after[j].score is None && !after[j].claimed
        &&& market.resolved ==> after[j].score == Some(
            spec_accuracy_score(after[j].guessed_mcap, market.final_mcap->0) as u64,
        )
        &&& after[j].score is Some == market.resolved
    } by {
        assert(j < predictions.len());
        assert(after[j] == predictions[j]);
    }
}

/// An open market stays consistent when a fresh prediction inside its
/// window is placed on it and its stake is added to the reserve.
pub proof fn lemma_consistent_after_stake(
    predictions: Seq<PredictionData>,
    p: PredictionData,
    market: Market,
)
    requires
        market_consistent(predictions, market),
        p.market == market.key(),
        !market.resolved,
        p.score is None,
        !p.claimed,
        market.start_ts <= p.timestamp < market.end_ts,
        market.sol_reserve + p.stake <= u64::MAX,
    ensures
        market_consistent(
            predictions.push(p),
            Market { sol_reserve: (market.sol_reserve + p.stake) as u64, ..market },
        ),
{
    let after = predictions.push(p);
    lemma_sums_after_push(predictions, p, market.key());
    assert forall|j: int|
        0 <= j < after.len() && (#[trigger] after[j]).market == market.key() implies {
        &&& market.start_ts <= after[j].timestamp < market.end_ts
        &&& after[j].score is None && !after[j].claimed
    } by {
        if j < predictions.len() {
            assert(after[j] == predictions[j]);
        }
    }
}

/// A market is consistent after its resolution at a fee rate of at most
/// the whole.
pub proof fn lemma_consistent_after_resolution(
    predictions: Seq<PredictionData>,
    market: Market,
    final_mcap: u64,
    fee_rate: u64,
)
    requires
        market_consistent(predictions, market),
        !market.resolved,
        score_total(predictions, market.key(), final_mcap) <= u64::MAX,
        fee_rate <= crate::settlement::BPS_DENOMINATOR,
    ensures
        market_consistent(
            scored(predictions, market.key(), final_mcap),
            crate::settlement::resolved_market(
                market,
                final_mcap,
                score_total(predictions, market.key(), final_mcap) as u64,
                fee_rate,
            ),
        ),
{
    let key = market.key();
    let after = scored(predictions, key, final_mcap);
    let total = score_total(predictions, key, final_mcap);
    assert(predictions.take(predictions.len() as int) =~= predictions);
    crate::settlement::lemma_score_total_grows(predictions, key, final_mcap, predictions.len() as int);
    let resolved = crate::settlement::resolved_market(market, final_mcap, total as u64, fee_rate);
    lemma_scored_sums(predictions, key, final_mcap);
    assert forall|j: int| 0 <= j < predictions.len() implies {
        &&& (#[trigger] predictions[j]).market == after[j].market
        &&& predictions[j].stake == after[j].stake
    } by {}
    lemma_same_stakes(predictions, after, key);
    assert forall|j: int|
        0 <= j < after.len() && (#[trigger] after[j]).market == resolved.key() implies {
        &&& resolved.start_ts <= after[j].timestamp < resolved.end_ts
        &&& after[j].score == Some(
            spec_accuracy_score(after[j].guessed_mcap, resolved.final_mcap->0) as u64,
        )
    } by {
        assert(predictions[j].market == key);
    }
}

/// Ledgers that hold each prediction on the same market with the same
/// stake give every market the same sum of stakes.
pub proof fn lemma_same_stakes(a: Seq<PredictionData>, b: Seq<PredictionData>, key: MarketRef)
    requires
        a.len() == b.len(),
        forall|j: int|
            0 <= j < a.len() ==> (#[trigger] a[j]).market == b[j].market && a[j].stake
                == b[j].stake,
    ensures
        staked(a, key) == staked(b, key),
    decreases a.len(),
{
    if a.len() > 0 {
        assert(a.last() == a[a.len() - 1]);
        assert(b.last() == b[a.len() - 1]);
        assert forall|j: int| 0 <= j < a.drop_last().len() implies (#[trigger] a.drop_last()[j]).market
            == b.drop_last()[j].market && a.drop_last()[j].stake == b.drop_last()[j].stake by {
            assert(a.drop_last()[j] == a[j]);
            assert(b.drop_last()[j] == b[j]);
        }
        lemma_same_stakes(a.drop_last(), b.drop_last(), key);
    }
}

/// In a registry without double references a market is found at its own
/// place.
pub proof fn lemma_market_found(markets: Seq<Market>, i: int)
    requires
        distinct_markets(markets),
        0 <= i < markets.len(),
    ensures
        has_market(markets, markets[i].key()),
        market_index(markets, markets[i].key()) == i,
        lookup_market(markets, markets[i].key()) == Some(markets[i]),
        market_map(markets).contains_key(markets[i].key()),
        market_map(markets)[markets[i].key()] == markets[i],
{
    let key = markets[i].key();
    assert(has_market(markets, key));
    let k = market_index(markets, key);
    assert(markets[k].key() == key);
}

/// In a ledger without double receipts a prediction is found at its own
/// place.
pub proof fn lemma_prediction_found(predictions: Seq<PredictionData>, j: int)
    requires
        distinct_receipts(predictions),
        0 <= j < predictions.len(),
    ensures
        has_prediction(predictions, predictions[j].prediction_mint),
        prediction_index(predictions, predictions[j].prediction_mint) == j,
        lookup_prediction(predictions, predictions[j].prediction_mint) == Some(predictions[j]),
        prediction_map(predictions).contains_key(predictions[j].prediction_mint),
        prediction_map(predictions)[predictions[j].prediction_mint] == predictions[j],
{
    let receipt = predictions[j].prediction_mint;
    assert(has_prediction(predictions, receipt));
    let k = prediction_index(predictions, receipt);
    assert(predictions[k].prediction_mint == receipt);
}

/// A new market under a free reference is one more entry of the map.
pub proof fn lemma_market_map_push(markets: Seq<Market>, market: Market)
    requires
        distinct_markets(markets),
        !has_market(markets, market.key()),
    ensures
        distinct_markets(markets.push(market)),
        market_map(markets.push(market)) == market_map(markets).insert(market.key(), market),
{
    let after = markets.push(market);
    assert forall|a: int, b: int|
        0 <= a < after.len() && 0 <= b < after.len() && a != b implies (#[trigger] after[a]).key()
        != (#[trigger] after[b]).key() by {
        if a < markets.len() {
            assert(after[a] == markets[a]);
        }
        if b < markets.len() {
            assert(after[b] == markets[b]);
        }
    }
    assert forall|key: MarketRef|
        #![trigger market_map(after).contains_key(key)]
        #![trigger market_map(after)[key]]
        {
            &&& market_map(after).contains_key(key) == market_map(markets).insert(
                market.key(),
                market,
            ).contains_key(key)
            &&& market_map(after).contains_key(key) ==> market_map(after)[key] == market_map(
                markets,
            ).insert(market.key(), market)[key]
        } by {
        if has_market(markets, key) {
            let k = market_index(markets, key);
            assert(after[k] == markets[k]);
            lemma_market_found(after, k);
        } else if key == market.key() {
            assert(after[markets.len() as int] == market);
            lemma_market_found(after, markets.len() as int);
        } else if has_market(after, key) {
            let k = market_index(after, key);
            if k < markets.len() {
                assert(after[k] == markets[k]);
            }
        }
    }
    assert(market_map(after) =~= market_map(markets).insert(market.key(), market));
}

/// A market that changes under its own reference changes its own entry of
/// the map.
pub proof fn lemma_market_map_update(markets: Seq<Market>, i: int, market: Market)
    requires
        distinct_markets(markets),
        0 <= i < markets.len(),
        market.key() == markets[i].key(),
    ensures
        distinct_markets(markets.update(i, market)),
        market_map(markets.update(i, market)) == market_map(markets).insert(market.key(), market),
{
    let after = markets.update(i, market);
    assert forall|k: int| 0 <= k < after.len() implies (#[trigger] after[k]).key()
        == markets[k].key() by {}
    assert forall|key: MarketRef|
        #![trigger market_map(after).contains_key(key)]
        #![trigger market_map(after)[key]]
        {
            &&& market_map(after).contains_key(key) == market_map(markets).insert(
                market.key(),
                market,
            ).contains_key(key)
            &&& market_map(after).contains_key(key) ==> market_map(after)[key] == market_map(
                markets,
            ).insert(market.key(), market)[key]
        } by {
        if has_market(markets, key) {
            let k = market_index(markets, key);
            assert(after[k].key() == key);
            lemma_market_found(after, k);
            lemma_market_found(markets, k);
        } else if has_market(after, key) {
            let k = market_index(after, key);
            assert(markets[k].key() == key);
        }
    }
    assert(market_map(after) =~= market_map(markets).insert(market.key(), market));
}

/// A new prediction under a free receipt is one more entry of the map.
pub proof fn lemma_prediction_map_push(predictions: Seq<PredictionData>, p: PredictionData)
    requires
        distinct_receipts(predictions),
        !has_prediction(predictions, p.prediction_mint),
    ensures
        distinct_receipts(predictions.push(p)),
        prediction_map(predictions.push(p)) == prediction_map(predictions).insert(
            p.prediction_mint,
            p,
        ),
{
    let after = predictions.push(p);
    assert forall|a: int, b: int|
        0 <= a < after.len() && 0 <= b < after.len() && a != b implies (
    #[trigger] after[a]).prediction_mint != (#[trigger] after[b]).prediction_mint by {
        if a < predictions.len() {
            assert(after[a] == predictions[a]);
        }
        if b < predictions.len() {
            assert(after[b] == predictions[b]);
        }
    }
    assert forall|receipt: Address|
        #![trigger prediction_map(after).contains_key(receipt)]
        #![trigger prediction_map(after)[receipt]]
        {
            &&& prediction_map(after).contains_key(receipt) == prediction_map(predictions).insert(
                p.prediction_mint,
                p,
            ).contains_key(receipt)
            &&& prediction_map(after).contains_key(receipt) ==> prediction_map(after)[receipt]
                == prediction_map(predictions).insert(p.prediction_mint, p)[receipt]
        } by {
        if has_prediction(predictions, receipt) {
            let k = prediction_index(predictions, receipt);
            assert(after[k] == predictions[k]);
            lemma_prediction_found(after, k);
        } else if receipt == p.prediction_mint {
            assert(after[predictions.len() as int] == p);
            lemma_prediction_found(after, predictions.len() as int);
        } else if has_prediction(after, receipt) {
            let k = prediction_index(after, receipt);
            if k < predictions.len() {
                assert(after[k] == predictions[k]);
            }
        }
    }
    assert(prediction_map(after) =~= prediction_map(predictions).insert(p.prediction_mint, p));
}

/// A ledger whose predictions all change in the same way, keeping their
/// receipts, is the old map with every value changed in that way.
pub proof fn lemma_prediction_map_changed(
    predictions: Seq<PredictionData>,
    after: Seq<PredictionData>,
    change: spec_fn(PredictionData) -> PredictionData,
)
    requires
        distinct_receipts(predictions),
        after.len() == predictions.len(),
        forall|j: int|
            0 <= j < predictions.len() ==> (#[trigger] after[j]) == change(predictions[j])
                && after[j].prediction_mint == predictions[j].prediction_mint,
    ensures
        distinct_receipts(after),
        prediction_map(after) == prediction_map(predictions).map_values(change),
{
    assert forall|receipt: Address|
        #![trigger prediction_map(after).contains_key(receipt)]
        #![trigger prediction_map(after)[receipt]]
        {
            &&& prediction_map(after).contains_key(receipt) == prediction_map(
                predictions,
            ).map_values(change).contains_key(receipt)
            &&& prediction_map(after).contains_key(receipt) ==> prediction_map(after)[receipt]
                == prediction_map(predictions).map_values(change)[receipt]
        } by {
        if has_prediction(predictions, receipt) {
            let k = prediction_index(predictions, receipt);
            assert(after[k].prediction_mint == receipt);
            lemma_prediction_found(after, k);
        } else if has_prediction(after, receipt) {
            let k = prediction_index(after, receipt);
            assert(predictions[k].prediction_mint == receipt);
        }
    }
    assert(prediction_map(after) =~= prediction_map(predictions).map_values(change));
}

/// A prediction that changes under its own receipt changes its own entry of
/// the map.
pub proof fn lemma_prediction_map_update(
    predictions: Seq<PredictionData>,
    j: int,
    p: PredictionData,
)
    requires
        distinct_receipts(predictions),
        0 <= j < predictions.len(),
        p.prediction_mint == predictions[j].prediction_mint,
    ensures
        distinct_receipts(predictions.update(j, p)),
        prediction_map(predictions.update(j, p)) == prediction_map(predictions).insert(
            p.prediction_mint,
            p,
        ),
{
    let after = predictions.update(j, p);
    assert forall|k: int| 0 <= k < after.len() implies (#[trigger] after[k]).prediction_mint
        == predictions[k].prediction_mint by {}
    assert forall|receipt: Address|
        #![trigger prediction_map(after).contains_key(receipt)]
        #![trigger prediction_map(after)[receipt]]
        {
            &&& prediction_map(after).contains_key(receipt) == prediction_map(predictions).insert(
                p.prediction_mint,
                p,
            ).contains_key(receipt)
            &&& prediction_map(after).contains_key(receipt) ==> prediction_map(after)[receipt]
                == prediction_map(predictions).insert(p.prediction_mint, p)[receipt]
        } by {
        if has_prediction(predictions, receipt) {
            let k = prediction_index(predictions, receipt);
            assert(after[k].prediction_mint == receipt);
            lemma_prediction_found(after, k);
            lemma_prediction_found(predictions, k);
        } else if has_prediction(after, receipt) {
            let k = prediction_index(after, receipt);
            assert(predictions[k].prediction_mint == receipt);
        }
    }
    assert(prediction_map(after) =~= prediction_map(predictions).insert(p.prediction_mint, p));
}

/// A registry that keeps its references keeps the market of every
/// prediction: of those that were in the ledger, which stay on their
/// markets, and of those that were added on a market of the registry.
pub proof fn lemma_predictions_keep_their_markets(
    markets: Seq<Market>,
    markets_after: Seq<Market>,
    predictions: Seq<PredictionData>,
    predictions_after: Seq<PredictionData>,
)
    requires
        markets.len() <= markets_after.len(),
        forall|k: int|
            0 <= k < markets.len() ==> (#[trigger] markets_after[k]).key() == markets[k].key(),
        forall|j: int|
            0 <= j < predictions.len() ==> has_market(markets, (#[trigger] predictions[j]).market),
        predictions.len() <= predictions_after.len(),
        forall|j: int|
            0 <= j < predictions.len() ==> (#[trigger] predictions_after[j]).market
                == predictions[j].market,
        forall|j: int|
            predictions.len() <= j < predictions_after.len() ==> has_market(
                markets_after,
                (#[trigger] predictions_after[j]).market,
            ),
    ensures
        forall|j: int|
            0 <= j < predictions_after.len() ==> has_market(
                markets_after,
                (#[trigger] predictions_after[j]).market,
            ),
{
    assert forall|j: int| 0 <= j < predictions_after.len() implies has_market(
        markets_after,
        (#[trigger] predictions_after[j]).market,
    ) by {
        if j < predictions.len() {
            let key = predictions[j].market;
            let k = market_index(markets, key);
            assert(markets_after[k].key() == key);
        }
    }
}

} // verus!
