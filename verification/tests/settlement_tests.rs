use insiders_job::{
    accuracy_score, check_claim, claim_payout, fee_and_pool, resolve_market, share, total_score,
    Address, ClaimPayout, Config, InsufficientFunds, Market, MarketErrorCode, MarketRef, Payout,
    PredictionData, ResolveMarket, BPS_DENOMINATOR, SCORE_SCALE,
};

fn id(tag: u8) -> Address {
    Address::new([tag; 32])
}

fn the_key() -> MarketRef {
    MarketRef { token_address: id(10), market_mint: id(11) }
}

fn other_key() -> MarketRef {
    MarketRef { token_address: id(10), market_mint: id(12) }
}

fn closed_market(reserve: u64) -> Market {
    Market {
        admin: id(1),
        token_address: id(10),
        market_mint: id(11),
        start_ts: 1_000,
        end_ts: 4_600,
        sol_reserve: reserve,
        total_score: None,
        final_mcap: None,
        resolved: false,
        bump: 254,
        resolved_fee_rate: None,
    }
}

fn guess(key: MarketRef, receipt: u8, guessed_mcap: u64, stake: u64) -> PredictionData {
    PredictionData {
        market: key,
        prediction_mint: id(receipt),
        guessed_mcap,
        stake,
        timestamp: 2_000,
        bump: 0,
        participant: id(receipt + 100),
        score: None,
        claimed: false,
    }
}

fn three_guesses() -> Vec<PredictionData> {
    vec![
        guess(the_key(), 20, 90, 40_000_000),
        guess(the_key(), 21, 110, 60_000_000),
        guess(the_key(), 22, 100, 100_000_000),
    ]
}

fn resolve_ctx(predictions: Vec<PredictionData>) -> ResolveMarket {
    ResolveMarket {
        admin: id(1),
        market: Some(closed_market(200_000_000)),
        config: Config { admin: id(1), fee_rate: 500, min_stake: 40_000_000, initialized: true },
        predictions,
    }
}

#[test]
fn score_constants_have_their_values() {
    assert_eq!(SCORE_SCALE, 1_000_000_000_000);
    assert_eq!(BPS_DENOMINATOR, 10_000);
}

#[test]
fn accuracy_score_follows_the_formula() {
    assert_eq!(accuracy_score(100, 100), 1_000_000_000_000);
    assert_eq!(accuracy_score(90, 100), 90_909_090_909);
    assert_eq!(accuracy_score(110, 100), 90_909_090_909);
    assert_eq!(accuracy_score(5, 0), 166_666_666_666);
    assert_eq!(accuracy_score(1, 3), 333_333_333_333);
    assert_eq!(accuracy_score(0, 999_999_999_999), 1);
    assert_eq!(accuracy_score(0, 1_000_000_000_000), 0);
    assert_eq!(accuracy_score(0, u64::MAX), 0);
    assert_eq!(accuracy_score(u64::MAX, 0), 0);
    assert_eq!(accuracy_score(u64::MAX, u64::MAX), 1_000_000_000_000);
}

#[test]
fn equal_errors_score_equally_and_nearer_scores_more() {
    assert_eq!(accuracy_score(70, 100), accuracy_score(130, 100));
    assert!(accuracy_score(99, 100) > accuracy_score(98, 100));
    assert!(accuracy_score(100, 100) > accuracy_score(101, 100));
}

#[test]
fn total_score_sums_one_market_only() {
    let mut all = three_guesses();
    all.push(guess(other_key(), 23, 100, 40_000_000));
    assert_eq!(total_score(&all, the_key(), 100), Some(1_181_818_181_818));
    assert_eq!(total_score(&all, other_key(), 100), Some(1_000_000_000_000));
    assert_eq!(total_score(&Vec::new(), the_key(), 100), Some(0));
}

#[test]
fn resolve_market_scores_and_closes() {
    let mut ctx = resolve_ctx(three_guesses());
    ctx.predictions.push(guess(other_key(), 23, 100, 40_000_000));
    assert_eq!(resolve_market(&mut ctx, 100, 4_600), Ok(()));
    let m = ctx.market.unwrap();
    assert!(m.resolved);
    assert_eq!(m.final_mcap, Some(100));
    assert_eq!(m.total_score, Some(1_181_818_181_818));
    assert_eq!(m.resolved_fee_rate, Some(500));
    assert_eq!(m.sol_reserve, 200_000_000);
    assert_eq!(m.end_ts, 4_600);
    assert_eq!(ctx.predictions[0].score, Some(90_909_090_909));
    assert_eq!(ctx.predictions[1].score, Some(90_909_090_909));
    assert_eq!(ctx.predictions[2].score, Some(1_000_000_000_000));
    assert_eq!(ctx.predictions[3], guess(other_key(), 23, 100, 40_000_000));
    let mut scored = guess(the_key(), 20, 90, 40_000_000);
    scored.score = Some(90_909_090_909);
    assert_eq!(ctx.predictions[0], scored);
    assert_eq!(ctx.predictions.len(), 4);
}

#[test]
fn resolve_market_without_predictions_totals_zero() {
    let mut ctx = resolve_ctx(Vec::new());
    assert_eq!(resolve_market(&mut ctx, 100, 5_000), Ok(()));
    assert_eq!(ctx.market.unwrap().total_score, Some(0));
}

#[test]
fn resolve_market_needs_a_market() {
    let mut ctx = resolve_ctx(three_guesses());
    ctx.market = None;
    assert_eq!(resolve_market(&mut ctx, 100, 4_600), Err(MarketErrorCode::MarketNotFound));
    assert_eq!(ctx.predictions, three_guesses());
}

#[test]
fn resolve_market_is_for_the_market_admin() {
    let mut ctx = resolve_ctx(three_guesses());
    ctx.admin = id(2);
    assert_eq!(resolve_market(&mut ctx, 100, 4_600), Err(MarketErrorCode::Unauthorized));
    assert_eq!(resolve_market(&mut ctx, 100, 0), Err(MarketErrorCode::Unauthorized));
    assert_eq!(ctx.market, Some(closed_market(200_000_000)));
    assert_eq!(ctx.predictions, three_guesses());
}

#[test]
fn resolve_market_waits_for_the_end_of_the_window() {
    let mut ctx = resolve_ctx(three_guesses());
    assert_eq!(resolve_market(&mut ctx, 100, 4_599), Err(MarketErrorCode::MarketNotEnded));
    assert_eq!(ctx.market, Some(closed_market(200_000_000)));
    assert_eq!(ctx.predictions, three_guesses());
    assert_eq!(resolve_market(&mut ctx, 100, 4_600), Ok(()));
}

#[test]
fn second_resolution_fails_and_changes_nothing() {
    let mut ctx = resolve_ctx(three_guesses());
    assert_eq!(resolve_market(&mut ctx, 100, 4_600), Ok(()));
    let market = ctx.market;
    let predictions = ctx.predictions.clone();
    assert_eq!(resolve_market(&mut ctx, 90, 4_700), Err(MarketErrorCode::AlreadyResolved));
    assert_eq!(resolve_market(&mut ctx, 100, 4_600), Err(MarketErrorCode::AlreadyResolved));
    assert_eq!(ctx.market, market);
    assert_eq!(ctx.predictions, predictions);
    ctx.admin = id(2);
    assert_eq!(resolve_market(&mut ctx, 90, 4_700), Err(MarketErrorCode::Unauthorized));
    assert_eq!(ctx.market, market);
}

#[test]
fn fee_and_pool_follow_the_formula() {
    assert_eq!(fee_and_pool(200_000_000, 500), Some((10_000_000, 190_000_000)));
    assert_eq!(fee_and_pool(200_000_000, 0), Some((0, 200_000_000)));
    assert_eq!(fee_and_pool(200_000_000, 10_000), Some((200_000_000, 0)));
    assert_eq!(fee_and_pool(199, 500), Some((9, 190)));
    assert_eq!(fee_and_pool(0, 1_000), Some((0, 0)));
    assert_eq!(
        fee_and_pool(u64::MAX, 1_000),
        Some((1_844_674_407_370_955_161, 16_602_069_666_338_596_454))
    );
    assert_eq!(fee_and_pool(200_000_000, 10_001), None);
    assert_eq!(fee_and_pool(1, 10_001), Some((1, 0)));
}

#[test]
fn share_follows_the_formula() {
    assert_eq!(share(190_000_000, 1_000_000_000_000, 1_181_818_181_818), Some(160_769_230));
    assert_eq!(share(190_000_000, 90_909_090_909, 1_181_818_181_818), Some(14_615_384));
    assert_eq!(share(190_000_000, 0, 1_181_818_181_818), Some(0));
    assert_eq!(share(190_000_000, 5, 5), Some(190_000_000));
    assert_eq!(share(190_000_000, 0, 0), Some(0));
    assert_eq!(share(190_000_000, 7, 0), Some(0));
    assert_eq!(share(u64::MAX, u64::MAX, u64::MAX), Some(u64::MAX));
    assert_eq!(share(u64::MAX, 2, 1), None);
    assert_eq!(share(10, 1, 3), Some(3));
}

fn paid(receipt: u8, amount: u64) -> Payout {
    Payout { market: the_key(), to: id(receipt + 100), amount }
}

fn settled_claim(index: usize) -> ClaimPayout {
    let mut ctx = resolve_ctx(three_guesses());
    assert_eq!(resolve_market(&mut ctx, 100, 4_600), Ok(()));
    ClaimPayout { market: ctx.market, prediction: Some(ctx.predictions[index]) }
}

#[test]
fn exact_guess_gets_the_largest_share() {
    assert_eq!(check_claim(&settled_claim(0)), Ok(paid(20, 14_615_384)));
    assert_eq!(check_claim(&settled_claim(1)), Ok(paid(21, 14_615_384)));
    assert_eq!(check_claim(&settled_claim(2)), Ok(paid(22, 160_769_230)));
    let first = check_claim(&settled_claim(0)).unwrap().amount;
    let second = check_claim(&settled_claim(1)).unwrap().amount;
    let third = check_claim(&settled_claim(2)).unwrap().amount;
    assert!(third > first && third > second);
    let fee = fee_and_pool(200_000_000, 500).unwrap().0;
    assert_eq!(fee, 10_000_000);
    assert_eq!(first + second + third + fee + 2, 200_000_000);
}

#[test]
fn claim_payout_pays_once() {
    let mut ctx = settled_claim(2);
    let before = ctx;
    assert_eq!(claim_payout(&mut ctx, Ok(())), Ok(paid(22, 160_769_230)));
    assert!(ctx.prediction.unwrap().claimed);
    assert_eq!(ctx.market, before.market);
    let mut flagged = before.prediction.unwrap();
    flagged.claimed = true;
    assert_eq!(ctx.prediction, Some(flagged));
    assert_eq!(check_claim(&ctx), Err(MarketErrorCode::AlreadyClaimed));
    assert_eq!(claim_payout(&mut ctx, Ok(())), Err(MarketErrorCode::AlreadyClaimed));
    assert_eq!(claim_payout(&mut ctx, Err(InsufficientFunds)), Err(MarketErrorCode::AlreadyClaimed));
    assert_eq!(ctx.prediction, Some(flagged));
}

#[test]
fn claim_payout_waits_for_resolution() {
    let mut ctx = ClaimPayout {
        market: Some(closed_market(200_000_000)),
        prediction: Some(guess(the_key(), 20, 90, 40_000_000)),
    };
    let before = ctx;
    assert_eq!(check_claim(&ctx), Err(MarketErrorCode::NotResolved));
    assert_eq!(claim_payout(&mut ctx, Ok(())), Err(MarketErrorCode::NotResolved));
    assert_eq!(ctx, before);
}

#[test]
fn claim_payout_wants_a_scored_prediction() {
    let mut ctx = settled_claim(0);
    let mut p = ctx.prediction.unwrap();
    p.score = None;
    ctx.prediction = Some(p);
    assert_eq!(check_claim(&ctx), Err(MarketErrorCode::NotResolved));
}

#[test]
fn claim_payout_needs_prediction_and_market() {
    let mut ctx = settled_claim(0);
    ctx.prediction = None;
    assert_eq!(check_claim(&ctx), Err(MarketErrorCode::PredictionNotFound));
    assert_eq!(claim_payout(&mut ctx, Ok(())), Err(MarketErrorCode::PredictionNotFound));
    let mut ctx = settled_claim(0);
    ctx.market = None;
    assert_eq!(check_claim(&ctx), Err(MarketErrorCode::MarketNotFound));
    let mut ctx = settled_claim(0);
    let mut p = ctx.prediction.unwrap();
    p.market = other_key();
    ctx.prediction = Some(p);
    assert_eq!(check_claim(&ctx), Err(MarketErrorCode::MarketNotFound));
    assert_eq!(claim_payout(&mut ctx, Ok(())), Err(MarketErrorCode::MarketNotFound));
}

#[test]
fn claim_payout_with_failed_transfer_keeps_the_claim_open() {
    let mut ctx = settled_claim(1);
    let before = ctx;
    assert_eq!(claim_payout(&mut ctx, Err(InsufficientFunds)), Err(MarketErrorCode::InsufficientFunds));
    assert_eq!(ctx, before);
    assert_eq!(claim_payout(&mut ctx, Ok(())), Ok(paid(21, 14_615_384)));
}

#[test]
fn claim_payout_reports_arithmetic_on_inconsistent_records() {
    let mut ctx = settled_claim(0);
    let mut m = ctx.market.unwrap();
    m.resolved_fee_rate = Some(10_001);
    ctx.market = Some(m);
    assert_eq!(check_claim(&ctx), Err(MarketErrorCode::CalculationOverflow));
    let mut ctx = settled_claim(0);
    let mut m = ctx.market.unwrap();
    m.sol_reserve = u64::MAX;
    m.resolved_fee_rate = Some(0);
    m.total_score = Some(1);
    ctx.market = Some(m);
    assert_eq!(claim_payout(&mut ctx, Ok(())), Err(MarketErrorCode::CalculationOverflow));
}

#[test]
fn zero_total_score_pays_nothing() {
    let mut ctx = resolve_ctx(vec![guess(the_key(), 20, 0, 200_000_000)]);
    assert_eq!(resolve_market(&mut ctx, 5_000_000_000_000, 4_600), Ok(()));
    assert_eq!(ctx.market.unwrap().total_score, Some(0));
    let mut claim = ClaimPayout { market: ctx.market, prediction: Some(ctx.predictions[0]) };
    assert_eq!(claim_payout(&mut claim, Ok(())), Ok(paid(20, 0)));
    assert!(claim.prediction.unwrap().claimed);
}
