use insiders_job::{
    check_prediction, initialize_market, place_prediction, Address, Config, Deposit,
    InitializeMarket,
    InsufficientFunds, Market, MarketErrorCode, MarketInitArgs, MarketPhase, MarketRef,
    PlacePredictionCtx, PredictionData,
};

fn key_of(tag: u8) -> Address {
    Address::new([tag; 32])
}

fn config_at(min_stake: u64) -> Config {
    Config { admin: key_of(1), fee_rate: 500, min_stake, initialized: true }
}

fn blank_market() -> Market {
    Market::vacant()
}

#[test]
fn vacant_market_is_zeroed() {
    assert_eq!(
        Market::vacant(),
        Market {
            admin: key_of(0),
            token_address: key_of(0),
            market_mint: key_of(0),
            start_ts: 0,
            end_ts: 0,
            sol_reserve: 0,
            total_score: None,
            final_mcap: None,
            resolved: false,
            bump: 0,
            resolved_fee_rate: None,
        }
    );
}

fn open_market() -> Market {
    Market {
        admin: key_of(1),
        token_address: key_of(10),
        market_mint: key_of(11),
        start_ts: 1_000,
        end_ts: 4_600,
        sol_reserve: 0,
        total_score: None,
        final_mcap: None,
        resolved: false,
        bump: 254,
        resolved_fee_rate: None,
    }
}

fn deposit_of(amount: u64) -> Deposit {
    Deposit {
        from: key_of(2),
        market: MarketRef { token_address: key_of(10), market_mint: key_of(11) },
        amount,
    }
}

fn place_ctx(market: Option<Market>) -> PlacePredictionCtx {
    PlacePredictionCtx {
        user: key_of(2),
        market,
        config: config_at(40_000_000),
        prediction_token_mint: key_of(20),
        prediction_data: None,
        prediction_bump: 253,
    }
}

#[test]
fn market_init_fills_a_new_market() {
    let mut m = blank_market();
    m.sol_reserve = 77;
    m.bump = 3;
    let args = MarketInitArgs {
        admin: key_of(1),
        token_address: key_of(10),
        market_mint: key_of(11),
        start_ts: 1_000,
        end_ts: 4_600,
        bump: 254,
    };
    assert_eq!(m.init(args), Ok(()));
    assert_eq!(m, open_market());
    assert_eq!(m.key(), MarketRef { token_address: key_of(10), market_mint: key_of(11) });
}

#[test]
fn market_init_rejects_an_empty_or_reversed_window() {
    let mut m = blank_market();
    let mut args = MarketInitArgs {
        admin: key_of(1),
        token_address: key_of(10),
        market_mint: key_of(11),
        start_ts: 1_000,
        end_ts: 1_000,
        bump: 254,
    };
    assert_eq!(m.init(args), Err(MarketErrorCode::InvalidTimeRange));
    args.end_ts = 999;
    assert_eq!(m.init(args), Err(MarketErrorCode::InvalidTimeRange));
    assert_eq!(m, blank_market());
    args.end_ts = 1_001;
    assert_eq!(m.init(args), Ok(()));
}

#[test]
fn initialize_market_opens_the_window_now() {
    let mut ctx = InitializeMarket {
        admin: key_of(1),
        config: config_at(40_000_000),
        market: None,
        market_bump: 254,
    };
    assert_eq!(initialize_market(&mut ctx, key_of(10), key_of(11), 3_600, 1_000), Ok(()));
    assert_eq!(ctx.market, Some(open_market()));
}

#[test]
fn initialize_market_needs_the_configuration() {
    let mut ctx = InitializeMarket {
        admin: key_of(0),
        config: Config::vacant(),
        market: None,
        market_bump: 0,
    };
    assert_eq!(
        initialize_market(&mut ctx, key_of(10), key_of(11), 3_600, 1_000),
        Err(MarketErrorCode::ConfigNotInitialized)
    );
    assert_eq!(ctx.market, None);
}

#[test]
fn initialize_market_is_for_the_admin() {
    let mut ctx = InitializeMarket {
        admin: key_of(2),
        config: config_at(40_000_000),
        market: None,
        market_bump: 0,
    };
    assert_eq!(
        initialize_market(&mut ctx, key_of(10), key_of(11), 3_600, 1_000),
        Err(MarketErrorCode::Unauthorized)
    );
    assert_eq!(ctx.market, None);
}

#[test]
fn initialize_market_never_overwrites() {
    let mut taken = open_market();
    taken.sol_reserve = 5;
    let mut ctx = InitializeMarket {
        admin: key_of(1),
        config: config_at(40_000_000),
        market: Some(taken),
        market_bump: 0,
    };
    assert_eq!(
        initialize_market(&mut ctx, key_of(10), key_of(11), 3_600, 9_000),
        Err(MarketErrorCode::MarketAlreadyExists)
    );
    assert_eq!(ctx.market, Some(taken));
}

#[test]
fn initialize_market_wants_a_positive_duration() {
    let mut ctx = InitializeMarket {
        admin: key_of(1),
        config: config_at(40_000_000),
        market: None,
        market_bump: 0,
    };
    assert_eq!(
        initialize_market(&mut ctx, key_of(10), key_of(11), 0, 1_000),
        Err(MarketErrorCode::InvalidTimeRange)
    );
    assert_eq!(
        initialize_market(&mut ctx, key_of(10), key_of(11), -1, 1_000),
        Err(MarketErrorCode::InvalidTimeRange)
    );
    assert_eq!(
        initialize_market(&mut ctx, key_of(10), key_of(11), i64::MIN, i64::MIN),
        Err(MarketErrorCode::InvalidTimeRange)
    );
    assert_eq!(ctx.market, None);
    assert_eq!(initialize_market(&mut ctx, key_of(10), key_of(11), 1, 1_000), Ok(()));
    assert_eq!(ctx.market.unwrap().end_ts, 1_001);
}

#[test]
fn initialize_market_checks_the_end_of_the_window() {
    let mut ctx = InitializeMarket {
        admin: key_of(1),
        config: config_at(40_000_000),
        market: None,
        market_bump: 0,
    };
    assert_eq!(
        initialize_market(&mut ctx, key_of(10), key_of(11), 1, i64::MAX),
        Err(MarketErrorCode::CalculationOverflow)
    );
    assert_eq!(ctx.market, None);
    assert_eq!(initialize_market(&mut ctx, key_of(10), key_of(11), 1, i64::MAX - 1), Ok(()));
    assert_eq!(ctx.market.unwrap().end_ts, i64::MAX);
}

#[test]
fn place_prediction_takes_the_stake_and_writes_the_record() {
    let mut ctx = place_ctx(Some(open_market()));
    assert_eq!(check_prediction(&ctx, 60_000_000, 2_000), Ok(deposit_of(60_000_000)));
    assert_eq!(place_prediction(&mut ctx, 110, 60_000_000, 2_000, Ok(())), Ok(()));
    let mut expected = open_market();
    expected.sol_reserve = 60_000_000;
    assert_eq!(ctx.market, Some(expected));
    assert_eq!(
        ctx.prediction_data,
        Some(PredictionData {
            market: MarketRef { token_address: key_of(10), market_mint: key_of(11) },
            prediction_mint: key_of(20),
            guessed_mcap: 110,
            stake: 60_000_000,
            timestamp: 2_000,
            bump: 253,
            participant: key_of(2),
            score: None,
            claimed: false,
        })
    );
}

#[test]
fn place_prediction_adds_to_what_is_staked() {
    let mut m = open_market();
    m.sol_reserve = 40_000_000;
    let mut ctx = place_ctx(Some(m));
    assert_eq!(place_prediction(&mut ctx, 1, 60_000_000, 1_500, Ok(())), Ok(()));
    assert_eq!(ctx.market.unwrap().sol_reserve, 100_000_000);
}

#[test]
fn window_is_closed_at_start_and_open_at_end() {
    let mut ctx = place_ctx(Some(open_market()));
    assert_eq!(check_prediction(&ctx, 40_000_000, 999), Err(MarketErrorCode::MarketNotStarted));
    assert_eq!(check_prediction(&ctx, 40_000_000, 1_000), Ok(deposit_of(40_000_000)));
    assert_eq!(check_prediction(&ctx, 40_000_000, 4_599), Ok(deposit_of(40_000_000)));
    assert_eq!(check_prediction(&ctx, 40_000_000, 4_600), Err(MarketErrorCode::MarketEnded));
    assert_eq!(check_prediction(&ctx, 40_000_000, 4_601), Err(MarketErrorCode::MarketEnded));
    assert_eq!(
        place_prediction(&mut ctx, 5, 40_000_000, 999, Ok(())),
        Err(MarketErrorCode::MarketNotStarted)
    );
    assert_eq!(
        place_prediction(&mut ctx, 5, 40_000_000, 4_600, Ok(())),
        Err(MarketErrorCode::MarketEnded)
    );
    assert_eq!(ctx, place_ctx(Some(open_market())));
    assert_eq!(place_prediction(&mut ctx, 5, 40_000_000, 1_000, Ok(())), Ok(()));
}

#[test]
fn stake_just_below_the_minimum_is_too_low() {
    let mut ctx = place_ctx(Some(open_market()));
    assert_eq!(check_prediction(&ctx, 39_999_999, 2_000), Err(MarketErrorCode::StakeTooLow));
    assert_eq!(
        place_prediction(&mut ctx, 100, 39_999_999, 2_000, Ok(())),
        Err(MarketErrorCode::StakeTooLow)
    );
    assert_eq!(ctx, place_ctx(Some(open_market())));
    assert_eq!(place_prediction(&mut ctx, 100, 40_000_000, 2_000, Ok(())), Ok(()));
}

#[test]
fn minimum_stake_is_the_one_that_stands() {
    let mut ctx = place_ctx(Some(open_market()));
    ctx.config = config_at(70_000_000);
    assert_eq!(check_prediction(&ctx, 69_999_999, 2_000), Err(MarketErrorCode::StakeTooLow));
    assert_eq!(check_prediction(&ctx, 70_000_000, 2_000), Ok(deposit_of(70_000_000)));
}

#[test]
fn place_prediction_needs_a_market() {
    let mut ctx = place_ctx(None);
    assert_eq!(check_prediction(&ctx, 40_000_000, 2_000), Err(MarketErrorCode::MarketNotFound));
    assert_eq!(
        place_prediction(&mut ctx, 100, 40_000_000, 2_000, Ok(())),
        Err(MarketErrorCode::MarketNotFound)
    );
    assert_eq!(ctx, place_ctx(None));
}

#[test]
fn place_prediction_refuses_a_resolved_market() {
    let mut m = open_market();
    m.resolved = true;
    m.final_mcap = Some(1);
    m.total_score = Some(0);
    m.resolved_fee_rate = Some(500);
    let mut ctx = place_ctx(Some(m));
    assert_eq!(check_prediction(&ctx, 40_000_000, 2_000), Err(MarketErrorCode::AlreadyResolved));
    assert_eq!(
        place_prediction(&mut ctx, 100, 40_000_000, 2_000, Ok(())),
        Err(MarketErrorCode::AlreadyResolved)
    );
    assert_eq!(ctx.market, Some(m));
    assert_eq!(check_prediction(&ctx, 40_000_000, 4_600), Err(MarketErrorCode::MarketEnded));
}

#[test]
fn place_prediction_uses_a_receipt_once() {
    let mut ctx = place_ctx(Some(open_market()));
    assert_eq!(place_prediction(&mut ctx, 100, 40_000_000, 2_000, Ok(())), Ok(()));
    let after_first = ctx;
    assert_eq!(check_prediction(&ctx, 50_000_000, 2_001), Err(MarketErrorCode::ReceiptAlreadyUsed));
    assert_eq!(
        place_prediction(&mut ctx, 200, 50_000_000, 2_001, Ok(())),
        Err(MarketErrorCode::ReceiptAlreadyUsed)
    );
    assert_eq!(ctx, after_first);
}

#[test]
fn failed_transfer_leaves_everything_as_it_was() {
    let mut ctx = place_ctx(Some(open_market()));
    assert_eq!(
        place_prediction(&mut ctx, 100, 40_000_000, 2_000, Err(InsufficientFunds)),
        Err(MarketErrorCode::InsufficientFunds)
    );
    assert_eq!(ctx, place_ctx(Some(open_market())));
    assert_eq!(
        place_prediction(&mut ctx, 100, 1, 2_000, Err(InsufficientFunds)),
        Err(MarketErrorCode::StakeTooLow)
    );
}

#[test]
fn reserve_overflow_is_refused_before_any_deposit() {
    let mut m = open_market();
    m.sol_reserve = u64::MAX;
    let mut ctx = place_ctx(Some(m));
    assert_eq!(check_prediction(&ctx, 40_000_000, 2_000), Err(MarketErrorCode::CalculationOverflow));
    assert_eq!(
        place_prediction(&mut ctx, 100, 40_000_000, 2_000, Ok(())),
        Err(MarketErrorCode::CalculationOverflow)
    );
    assert_eq!(ctx, place_ctx(Some(m)));

    m.sol_reserve = u64::MAX - 40_000_000 + 1;
    let mut ctx = place_ctx(Some(m));
    assert_eq!(check_prediction(&ctx, 40_000_000, 2_000), Err(MarketErrorCode::CalculationOverflow));
    assert_eq!(
        place_prediction(&mut ctx, 100, 40_000_000, 2_000, Ok(())),
        Err(MarketErrorCode::CalculationOverflow)
    );
    assert_eq!(
        place_prediction(&mut ctx, 100, 40_000_000, 2_000, Err(InsufficientFunds)),
        Err(MarketErrorCode::CalculationOverflow)
    );
    assert_eq!(check_prediction(&ctx, 1, 2_000), Err(MarketErrorCode::StakeTooLow));
    assert_eq!(ctx, place_ctx(Some(m)));

    m.sol_reserve = u64::MAX - 40_000_000;
    let mut ctx = place_ctx(Some(m));
    assert_eq!(check_prediction(&ctx, 40_000_000, 2_000), Ok(deposit_of(40_000_000)));
    assert_eq!(place_prediction(&mut ctx, 100, 40_000_000, 2_000, Ok(())), Ok(()));
    assert_eq!(ctx.market.unwrap().sol_reserve, u64::MAX);
}

#[test]
fn passed_check_and_transfer_always_place_the_prediction() {
    for (reserve, stake, now) in
        [(0u64, 40_000_000u64, 1_000i64), (5, u64::MAX - 5, 4_599), (u64::MAX - 1, 1, 2_000)]
    {
        let mut m = open_market();
        m.sol_reserve = reserve;
        let mut ctx = place_ctx(Some(m));
        ctx.config = config_at(1);
        if check_prediction(&ctx, stake, now).is_ok() {
            assert_eq!(place_prediction(&mut ctx, 7, stake, now, Ok(())), Ok(()));
            assert_eq!(ctx.market.unwrap().sol_reserve, reserve + stake);
        }
    }
}

#[test]
fn market_init_leaves_a_resolved_market_alone() {
    let mut m = open_market();
    m.sol_reserve = 200_000_000;
    m.resolved = true;
    m.final_mcap = Some(100);
    m.total_score = Some(1_181_818_181_818);
    m.resolved_fee_rate = Some(500);
    let resolved = m;
    let mut args = MarketInitArgs {
        admin: key_of(9),
        token_address: key_of(10),
        market_mint: key_of(11),
        start_ts: 9_000,
        end_ts: 9_900,
        bump: 1,
    };
    assert_eq!(m.init(args), Err(MarketErrorCode::AlreadyResolved));
    assert_eq!(m, resolved);
    args.end_ts = 9_000;
    assert_eq!(m.init(args), Err(MarketErrorCode::InvalidTimeRange));
    assert_eq!(m, resolved);
    args.end_ts = 8_999;
    assert_eq!(m.init(args), Err(MarketErrorCode::InvalidTimeRange));
    assert_eq!(m, resolved);
    assert!(m.resolved);
    assert_eq!(m.final_mcap, Some(100));
    assert_eq!(m.total_score, Some(1_181_818_181_818));
    assert_eq!(m.sol_reserve, 200_000_000);
}

#[test]
fn market_init_tests_the_window_on_every_market() {
    for resolved in [false, true] {
        let mut m = open_market();
        m.sol_reserve = 5;
        m.resolved = resolved;
        let before = m;
        for (start_ts, end_ts) in [(9_000, 9_000), (9_000, 8_999), (i64::MAX, i64::MIN), (0, 0)] {
            let args = MarketInitArgs {
                admin: key_of(9),
                token_address: key_of(10),
                market_mint: key_of(11),
                start_ts,
                end_ts,
                bump: 1,
            };
            assert_eq!(m.init(args), Err(MarketErrorCode::InvalidTimeRange));
            assert_eq!(m, before);
        }
    }
}

#[test]
fn market_init_starts_an_unresolved_record_at_zero() {
    let mut m = open_market();
    m.sol_reserve = 5;
    let args = MarketInitArgs {
        admin: key_of(1),
        token_address: key_of(10),
        market_mint: key_of(11),
        start_ts: 1_000,
        end_ts: 4_600,
        bump: 254,
    };
    assert_eq!(m.init(args), Ok(()));
    assert_eq!(m, open_market());
}

#[test]
fn market_moves_through_its_phases() {
    let mut m = open_market();
    assert_eq!(m.phase(i64::MIN), MarketPhase::Pending);
    assert_eq!(m.phase(999), MarketPhase::Pending);
    assert_eq!(m.phase(1_000), MarketPhase::Open);
    assert_eq!(m.phase(4_599), MarketPhase::Open);
    assert_eq!(m.phase(4_600), MarketPhase::Closed);
    assert_eq!(m.phase(i64::MAX), MarketPhase::Closed);
    m.resolved = true;
    assert_eq!(m.phase(999), MarketPhase::Resolved);
    assert_eq!(m.phase(2_000), MarketPhase::Resolved);
    assert_eq!(m.phase(4_600), MarketPhase::Resolved);
}
