//! Markets, pools, orders, oracles and settlement.

use astraport::base::address::Address;
use astraport::base::symbol::Symbol;
use astraport::prediction::contract::PredictionMarket;
use astraport::prediction::state::PredictionEnv;
use astraport::prediction::types::{
    DisputeStatus, MarketCategory, MarketStatus, OrderSide, OrderStatus, Outcome, PredictionError,
};

/// A new address that signs every call.
fn address(env: &mut PredictionEnv) -> Address {
    let text = format!("G{:0>55}", env.auths.len() + 1);
    let made = Address::from_text(text.as_bytes());
    env.auths.push(made);
    made
}

fn setup() -> (PredictionEnv, Address) {
    let mut env = PredictionEnv::new(0);
    let admin = address(&mut env);
    PredictionMarket::initialize(&mut env, admin).unwrap();
    (env, admin)
}

fn make_binary_outcomes() -> Vec<Outcome> {
    vec![
        Outcome { name: Symbol::new("Yes"), index: 0 },
        Outcome { name: Symbol::new("No"), index: 1 },
    ]
}

fn make_three_way_outcomes() -> Vec<Outcome> {
    vec![
        Outcome { name: Symbol::new("TeamA"), index: 0 },
        Outcome { name: Symbol::new("Draw"), index: 1 },
        Outcome { name: Symbol::new("TeamB"), index: 2 },
    ]
}

fn create_binary_market(env: &mut PredictionEnv, admin: Address) -> u64 {
    let now = env.timestamp;
    PredictionMarket::create_market(
        env,
        admin,
        Symbol::new("BTC100k"),
        MarketCategory::Crypto,
        make_binary_outcomes(),
        now + 86400,
        now + 172800,
        Symbol::new("Chainlink"),
        1_000_000_000,
        30,
        true,
    )
    .unwrap()
}

fn create_multi_market(env: &mut PredictionEnv, admin: Address) -> u64 {
    let now = env.timestamp;
    PredictionMarket::create_market(
        env,
        admin,
        Symbol::new("WC_Final"),
        MarketCategory::Sports,
        make_three_way_outcomes(),
        now + 86400,
        now + 172800,
        Symbol::new("SportOrcl"),
        5_000_000_000,
        50,
        false,
    )
    .unwrap()
}

// Initialization tests

#[test]
fn tests_test_initialize() {
    let (env, _admin) = setup();
    let count = PredictionMarket::get_market_count(&env);
    assert_eq!(count, 0);
}

#[test]
fn tests_test_double_initialize_fails() {
    let mut env = PredictionEnv::new(0);
    let admin = address(&mut env);
    PredictionMarket::initialize(&mut env, admin).unwrap();
    assert_eq!(
        PredictionMarket::initialize(&mut env, admin),
        Err(PredictionError::AlreadyInitialized),
    );
}

// Market creation tests

#[test]
fn test_create_binary_market() {
    let (mut env, admin) = setup();
    let market_id = create_binary_market(&mut env, admin);

    let market = PredictionMarket::get_market(&env, market_id).unwrap();
    assert_eq!(market.description, Symbol::new("BTC100k"));
    assert_eq!(market.category, MarketCategory::Crypto);
    assert_eq!(market.outcomes.len(), 2);
    assert!(market.is_binary());
    assert_eq!(market.status, MarketStatus::Active);
    assert_eq!(market.fee_bps, 30);
    assert!(market.allow_early_close);
}

#[test]
fn test_create_multi_outcome_market() {
    let (mut env, admin) = setup();
    let market_id = create_multi_market(&mut env, admin);

    let market = PredictionMarket::get_market(&env, market_id).unwrap();
    assert_eq!(market.outcomes.len(), 3);
    assert!(!market.is_binary());
    assert_eq!(market.category, MarketCategory::Sports);
}

#[test]
fn test_market_list_tracking() {
    let (mut env, admin) = setup();
    let id1 = create_binary_market(&mut env, admin);
    let id2 = create_multi_market(&mut env, admin);

    let ids = PredictionMarket::get_all_market_ids(&env);
    assert_eq!(ids.len(), 2);
    assert_eq!(ids[0], id1);
    assert_eq!(ids[1], id2);
    assert_eq!(PredictionMarket::get_market_count(&env), 2);
}

#[test]
fn test_create_market_invalid_outcomes_too_few() {
    let (mut env, admin) = setup();
    let now = env.timestamp;
    let one_outcome = vec![
        Outcome {
            name: Symbol::new("Only"),
            index: 0,
        },
    ];
    assert_eq!(
        PredictionMarket::create_market(
            &mut env,
            admin,
            Symbol::new("Bad"),
            MarketCategory::Other,
            one_outcome,
            now + 86400,
            now + 172800,
            Symbol::new("Oracle"),
            1_000_000,
            30,
            false,
        ),
        Err(PredictionError::TooManyOutcomes),
    );
}

#[test]
fn test_create_market_invalid_times() {
    let (mut env, admin) = setup();
    let now = env.timestamp;
    let outcomes = make_binary_outcomes();

    // trading_end_time must be after now
    assert_eq!(
        PredictionMarket::create_market(
            &mut env,
            admin,
            Symbol::new("Bad"),
            MarketCategory::Other,
            outcomes,
            now,
            now + 172800,
            Symbol::new("Oracle"),
            1_000_000,
            30,
            false,
        ),
        Err(PredictionError::InvalidMarketParams),
    );
}

#[test]
fn test_markets_by_category() {
    let (mut env, admin) = setup();
    create_binary_market(&mut env, admin);
    create_multi_market(&mut env, admin);

    let crypto = PredictionMarket::get_markets_by_category(&env, MarketCategory::Crypto);
    assert_eq!(crypto.len(), 1);

    let sports = PredictionMarket::get_markets_by_category(&env, MarketCategory::Sports);
    assert_eq!(sports.len(), 1);

    let events = PredictionMarket::get_markets_by_category(&env, MarketCategory::Events);
    assert_eq!(events.len(), 0);
}

// Liquidity pool tests

#[test]
fn test_create_liquidity_pool() {
    let (mut env, admin) = setup();
    let market_id = create_binary_market(&mut env, admin);

    let lp_result = PredictionMarket::create_liquidity_pool(
        &mut env,
        admin,
        market_id,
        100_000,
    )
    .unwrap();
    assert_eq!(lp_result.lp_tokens_minted, 100_000);
    assert_eq!(lp_result.collateral_deposited, 100_000);

    let lp_balance = PredictionMarket::get_lp_balance(&env, market_id, admin);
    assert_eq!(lp_balance, 100_000);
}

#[test]
fn test_create_pool_insufficient_liquidity() {
    let (mut env, admin) = setup();
    let market_id = create_binary_market(&mut env, admin);

    assert_eq!(
        PredictionMarket::create_liquidity_pool(&mut env, admin, market_id, 100),
        Err(PredictionError::InsufficientLiquidity),
    );
}

#[test]
fn test_pool_invariant_after_creation() {
    let (mut env, admin) = setup();
    let market_id = create_binary_market(&mut env, admin);

    PredictionMarket::create_liquidity_pool(&mut env, admin, market_id, 100_000).unwrap();
    assert!(PredictionMarket::check_invariant(&env, market_id));
}

#[test]
fn test_cpmm_prices_after_creation() {
    let (mut env, admin) = setup();
    let market_id = create_binary_market(&mut env, admin);

    PredictionMarket::create_liquidity_pool(&mut env, admin, market_id, 100_000).unwrap();

    let prices = PredictionMarket::get_all_prices(&env, market_id).unwrap();
    assert_eq!(prices.len(), 2);

    // Both outcomes priced at 1.0 in 18-decimal: 100000 * 1e18 / 100000 = 1e18
    let expected = 1_000_000_000_000_000_000_i128;
    assert_eq!(prices[0], expected);
    assert_eq!(prices[1], expected);
}

#[test]
fn test_add_liquidity() {
    let (mut env, admin) = setup();
    let market_id = create_binary_market(&mut env, admin);

    PredictionMarket::create_liquidity_pool(&mut env, admin, market_id, 100_000).unwrap();

    let lp2 = address(&mut env);
    let result = PredictionMarket::add_liquidity(&mut env, lp2, market_id, 50_000).unwrap();
    assert!(result.lp_tokens_minted > 0);

    let lp_balance = PredictionMarket::get_lp_balance(&env, market_id, lp2);
    assert!(lp_balance > 0);
    assert!(PredictionMarket::check_invariant(&env, market_id));
}

// CPMM trading tests

#[test]
fn test_buy_outcome_tokens() {
    let (mut env, admin) = setup();
    let market_id = create_binary_market(&mut env, admin);

    PredictionMarket::create_liquidity_pool(&mut env, admin, market_id, 100_000).unwrap();

    let buyer = address(&mut env);
    let swap = PredictionMarket::buy_outcome(&mut env, buyer, market_id, 0, 10_000, 0).unwrap();
    assert!(swap.outcome_amount > 0);
    assert_eq!(swap.collateral_amount, 10_000);

    let balance = PredictionMarket::get_outcome_balance(&env, market_id, buyer, 0);
    assert_eq!(balance, swap.outcome_amount);
}

#[test]
fn test_buy_price_impact() {
    let (mut env, admin) = setup();
    let market_id = create_binary_market(&mut env, admin);

    PredictionMarket::create_liquidity_pool(&mut env, admin, market_id, 100_000).unwrap();

    let buyer = address(&mut env);

    let result1 = PredictionMarket::buy_outcome(
        &mut env,
        buyer,
        market_id,
        0,
        10_000,
        0,
    )
    .unwrap();
    let price1 = result1.collateral_amount / result1.outcome_amount;

    let result2 = PredictionMarket::buy_outcome(
        &mut env,
        buyer,
        market_id,
        0,
        10_000,
        0,
    )
    .unwrap();
    let price2 = result2.collateral_amount / result2.outcome_amount;

    assert!(price2 >= price1);
}

#[test]
fn test_sell_outcome_tokens() {
    let (mut env, admin) = setup();
    let market_id = create_binary_market(&mut env, admin);

    PredictionMarket::create_liquidity_pool(&mut env, admin, market_id, 100_000).unwrap();

    let trader = address(&mut env);
    let buy_result = PredictionMarket::buy_outcome(
        &mut env,
        trader,
        market_id,
        0,
        10_000,
        0,
    )
    .unwrap();
    let bought = buy_result.outcome_amount;

    let sell_result = PredictionMarket::sell_outcome(
        &mut env,
        trader,
        market_id,
        0,
        bought / 2,
        0,
    )
    .unwrap();
    assert!(sell_result.collateral_amount > 0);
}

#[test]
fn test_sell_insufficient_balance() {
    let (mut env, admin) = setup();
    let market_id = create_binary_market(&mut env, admin);
    PredictionMarket::create_liquidity_pool(&mut env, admin, market_id, 100_000).unwrap();

    let trader = address(&mut env);
    assert_eq!(
        PredictionMarket::sell_outcome(&mut env, trader, market_id, 0, 1000, 0),
        Err(PredictionError::InsufficientBalance),
    );
}

#[test]
fn test_pool_invariant_after_trades() {
    let (mut env, admin) = setup();
    let market_id = create_binary_market(&mut env, admin);
    PredictionMarket::create_liquidity_pool(&mut env, admin, market_id, 100_000).unwrap();

    let buyer = address(&mut env);
    for i in 0..5u32 {
        let amount = 1_000 * (i + 1) as i128;
        let _ = PredictionMarket::buy_outcome(&mut env, buyer, market_id, 0, amount, 0).unwrap();
    }

    assert!(PredictionMarket::check_invariant(&env, market_id));
    assert!(PredictionMarket::verify_pool_invariant(&env, market_id).unwrap());
}

#[test]
fn test_buy_market_not_tradable() {
    let (mut env, admin) = setup();
    let market_id = create_binary_market(&mut env, admin);
    PredictionMarket::create_liquidity_pool(&mut env, admin, market_id, 100_000).unwrap();
    PredictionMarket::early_close(&mut env, admin, market_id).unwrap();

    let buyer = address(&mut env);
    assert_eq!(
        PredictionMarket::buy_outcome(&mut env, buyer, market_id, 0, 1000, 0),
        Err(PredictionError::MarketNotTradable),
    );
}

#[test]
fn test_buy_invalid_outcome_index() {
    let (mut env, admin) = setup();
    let market_id = create_binary_market(&mut env, admin);
    PredictionMarket::create_liquidity_pool(&mut env, admin, market_id, 100_000).unwrap();

    let buyer = address(&mut env);
    assert_eq!(
        PredictionMarket::buy_outcome(&mut env, buyer, market_id, 5, 1000, 0),
        Err(PredictionError::InvalidOutcomeIndex),
    );
}

// Order book tests

#[test]
fn test_place_order() {
    let (mut env, admin) = setup();
    let market_id = create_binary_market(&mut env, admin);

    let trader = address(&mut env);
    let order_id = PredictionMarket::place_order(
        &mut env,
        trader,
        market_id,
        0,
        OrderSide::Buy,
        500_000_000_000_000_000,
        1_000,
    )
    .unwrap();
    assert_eq!(order_id, 1);

    let order = PredictionMarket::get_order(&env, market_id, 1).unwrap();
    assert_eq!(order.side, OrderSide::Buy);
    assert_eq!(order.amount, 1_000);
    assert_eq!(order.status, OrderStatus::Active);
}

#[test]
fn test_cancel_order() {
    let (mut env, admin) = setup();
    let market_id = create_binary_market(&mut env, admin);

    let trader = address(&mut env);
    let order_id = PredictionMarket::place_order(
        &mut env,
        trader,
        market_id,
        0,
        OrderSide::Buy,
        500_000_000_000_000_000,
        1_000,
    )
    .unwrap();

    let result = PredictionMarket::cancel_order(&mut env, trader, market_id, order_id).unwrap();
    assert_eq!(result, Symbol::new("ok"));

    let order = PredictionMarket::get_order(&env, market_id, order_id).unwrap();
    assert_eq!(order.status, OrderStatus::Cancelled);
    assert_eq!(order.remaining, 0);
}

#[test]
fn test_order_book_snapshot() {
    let (mut env, admin) = setup();
    let market_id = create_binary_market(&mut env, admin);

    let buyer = address(&mut env);
    let seller = address(&mut env);

    PredictionMarket::place_order(
        &mut env,
        buyer,
        market_id,
        0,
        OrderSide::Buy,
        500,
        100,
    )
    .unwrap();
    PredictionMarket::place_order(
        &mut env,
        seller,
        market_id,
        0,
        OrderSide::Sell,
        600,
        50,
    )
    .unwrap();

    let snap = PredictionMarket::get_order_book(&env, market_id, 0);
    assert_eq!(snap.bid_count, 1);
    assert_eq!(snap.ask_count, 1);
    assert_eq!(snap.best_bid, 500);
    assert_eq!(snap.best_ask, 600);
    assert_eq!(snap.spread, 100);
}

#[test]
fn test_order_not_found() {
    let mut env = PredictionEnv::new(0);
    let admin = address(&mut env);
    PredictionMarket::initialize(&mut env, admin).unwrap();

    assert!(PredictionMarket::get_order(&env, 1, 999).is_none());
}

#[test]
fn test_order_book_market_not_tradable() {
    let (mut env, admin) = setup();
    let market_id = create_binary_market(&mut env, admin);
    PredictionMarket::early_close(&mut env, admin, market_id).unwrap();

    let trader = address(&mut env);
    assert_eq!(
        PredictionMarket::place_order(&mut env, trader, market_id, 0, OrderSide::Buy, 500, 100),
        Err(PredictionError::MarketNotTradable),
    );
}

// Oracle resolution tests

#[test]
fn test_submit_resolution() {
    let (mut env, admin) = setup();
    let market_id = create_binary_market(&mut env, admin);
    PredictionMarket::create_liquidity_pool(&mut env, admin, market_id, 100_000).unwrap();

    env.timestamp += 172800;

    PredictionMarket::finalize_trading(&mut env, market_id).unwrap();

    let market = PredictionMarket::get_market(&env, market_id).unwrap();
    assert_eq!(market.status, MarketStatus::PendingResolution);

    let resolution = PredictionMarket::submit_resolution(
        &mut env,
        market_id,
        Symbol::new("Chainlink"),
        0,
    )
    .unwrap();
    assert_eq!(resolution.resolved_outcome, 0);
    assert!(resolution.confirmed);

    let market = PredictionMarket::get_market(&env, market_id).unwrap();
    assert_eq!(market.status, MarketStatus::Resolved);
    assert_eq!(market.resolved_outcome, Some(0));
}

#[test]
fn test_resolution_before_window_closed() {
    let (mut env, admin) = setup();
    let market_id = create_binary_market(&mut env, admin);
    PredictionMarket::create_liquidity_pool(&mut env, admin, market_id, 100_000).unwrap();

    assert_eq!(
        PredictionMarket::finalize_trading(&mut env, market_id),
        Err(PredictionError::ResolutionWindowNotClosed),
    );
}

#[test]
fn test_resolution_wrong_oracle() {
    let (mut env, admin) = setup();
    let market_id = create_binary_market(&mut env, admin);
    PredictionMarket::create_liquidity_pool(&mut env, admin, market_id, 100_000).unwrap();

    env.timestamp += 172800;

    PredictionMarket::finalize_trading(&mut env, market_id).unwrap();

    assert_eq!(
        PredictionMarket::submit_resolution(&mut env, market_id, Symbol::new("BadOracle"), 0),
        Err(PredictionError::Unauthorized),
    );
}

#[test]
fn test_get_resolution_data() {
    let (mut env, admin) = setup();
    let market_id = create_binary_market(&mut env, admin);
    PredictionMarket::create_liquidity_pool(&mut env, admin, market_id, 100_000).unwrap();

    env.timestamp += 172800;

    PredictionMarket::finalize_trading(&mut env, market_id).unwrap();
    PredictionMarket::submit_resolution(
        &mut env,
        market_id,
        Symbol::new("Chainlink"),
        0,
    )
    .unwrap();

    let resolution = PredictionMarket::get_resolution(&env, market_id).unwrap();
    assert_eq!(resolution.resolved_outcome, 0);
    assert!(resolution.confirmed);
}

// Dispute mechanism tests

#[test]
fn test_file_dispute() {
    let (mut env, admin) = setup();
    let market_id = create_binary_market(&mut env, admin);
    PredictionMarket::create_liquidity_pool(&mut env, admin, market_id, 100_000).unwrap();

    env.timestamp += 172800;

    PredictionMarket::finalize_trading(&mut env, market_id).unwrap();
    PredictionMarket::submit_resolution(
        &mut env,
        market_id,
        Symbol::new("Chainlink"),
        0,
    )
    .unwrap();

    let disputer = address(&mut env);
    let dispute = PredictionMarket::file_dispute(
        &mut env,
        disputer,
        market_id,
        1,
        Symbol::new("evidence"),
        1_000,
    )
    .unwrap();
    assert_eq!(dispute.claimed_outcome, 1);
    assert_eq!(dispute.status, DisputeStatus::Pending);

    let market = PredictionMarket::get_market(&env, market_id).unwrap();
    assert_eq!(market.status, MarketStatus::Disputed);
}

#[test]
fn test_resolve_dispute_accepted() {
    let (mut env, admin) = setup();
    let market_id = create_binary_market(&mut env, admin);
    PredictionMarket::create_liquidity_pool(&mut env, admin, market_id, 100_000).unwrap();

    env.timestamp += 172800;

    PredictionMarket::finalize_trading(&mut env, market_id).unwrap();
    PredictionMarket::submit_resolution(
        &mut env,
        market_id,
        Symbol::new("Chainlink"),
        0,
    )
    .unwrap();

    let disputer = address(&mut env);
    PredictionMarket::file_dispute(
        &mut env,
        disputer,
        market_id,
        1,
        Symbol::new("proof"),
        1_000,
    )
    .unwrap();

    let dispute = PredictionMarket::resolve_dispute(&mut env, admin, market_id, true).unwrap();
    assert_eq!(dispute.status, DisputeStatus::Accepted);

    let market = PredictionMarket::get_market(&env, market_id).unwrap();
    assert_eq!(market.resolved_outcome, Some(1));
}

#[test]
fn test_resolve_dispute_rejected() {
    let (mut env, admin) = setup();
    let market_id = create_binary_market(&mut env, admin);
    PredictionMarket::create_liquidity_pool(&mut env, admin, market_id, 100_000).unwrap();

    env.timestamp += 172800;

    PredictionMarket::finalize_trading(&mut env, market_id).unwrap();
    PredictionMarket::submit_resolution(
        &mut env,
        market_id,
        Symbol::new("Chainlink"),
        0,
    )
    .unwrap();

    let disputer = address(&mut env);
    PredictionMarket::file_dispute(
        &mut env,
        disputer,
        market_id,
        1,
        Symbol::new("weak"),
        1_000,
    )
    .unwrap();

    let dispute = PredictionMarket::resolve_dispute(&mut env, admin, market_id, false).unwrap();
    assert_eq!(dispute.status, DisputeStatus::Rejected);

    let market = PredictionMarket::get_market(&env, market_id).unwrap();
    assert_eq!(market.resolved_outcome, Some(0));
}

// Settlement tests

#[test]
fn test_redeem_winning_tokens() {
    let (mut env, admin) = setup();
    let market_id = create_binary_market(&mut env, admin);
    PredictionMarket::create_liquidity_pool(&mut env, admin, market_id, 100_000).unwrap();

    let buyer = address(&mut env);
    let buy_result = PredictionMarket::buy_outcome(
        &mut env,
        buyer,
        market_id,
        0,
        10_000,
        0,
    )
    .unwrap();
    let bought = buy_result.outcome_amount;

    env.timestamp += 172800;

    PredictionMarket::finalize_trading(&mut env, market_id).unwrap();
    PredictionMarket::submit_resolution(
        &mut env,
        market_id,
        Symbol::new("Chainlink"),
        0,
    )
    .unwrap();

    let payout = PredictionMarket::redeem_tokens(&mut env, buyer, market_id, bought).unwrap();
    assert_eq!(payout, bought);
}

#[test]
fn test_redeem_losing_tokens_fails() {
    let (mut env, admin) = setup();
    let market_id = create_binary_market(&mut env, admin);
    PredictionMarket::create_liquidity_pool(&mut env, admin, market_id, 100_000).unwrap();

    let buyer = address(&mut env);
    let buy_result = PredictionMarket::buy_outcome(
        &mut env,
        buyer,
        market_id,
        1,
        10_000,
        0,
    )
    .unwrap();
    let bought = buy_result.outcome_amount;

    env.timestamp += 172800;

    PredictionMarket::finalize_trading(&mut env, market_id).unwrap();
    PredictionMarket::submit_resolution(
        &mut env,
        market_id,
        Symbol::new("Chainlink"),
        0,
    )
    .unwrap();

    // Trying to redeem "No" tokens (losing outcome) should fail with InsufficientBalance
    assert_eq!(
        PredictionMarket::redeem_tokens(&mut env, buyer, market_id, bought),
        Err(PredictionError::InsufficientBalance),
    );
}

#[test]
fn test_redeem_before_resolution() {
    let (mut env, admin) = setup();
    let market_id = create_binary_market(&mut env, admin);
    PredictionMarket::create_liquidity_pool(&mut env, admin, market_id, 100_000).unwrap();

    let buyer = address(&mut env);
    let buy_result = PredictionMarket::buy_outcome(
        &mut env,
        buyer,
        market_id,
        0,
        10_000,
        0,
    )
    .unwrap();

    assert_eq!(
        PredictionMarket::redeem_tokens(&mut env, buyer, market_id, buy_result.outcome_amount),
        Err(PredictionError::MarketNotResolved),
    );
}

// LP fee distribution tests

#[test]
fn test_distribute_fees() {
    let (mut env, admin) = setup();
    let market_id = create_binary_market(&mut env, admin);
    PredictionMarket::create_liquidity_pool(&mut env, admin, market_id, 100_000).unwrap();

    let buyer = address(&mut env);
    let _ = PredictionMarket::buy_outcome(&mut env, buyer, market_id, 0, 10_000, 0).unwrap();
    let _ = PredictionMarket::sell_outcome(&mut env, buyer, market_id, 0, 5_000, 0).unwrap();

    let pool_before = PredictionMarket::get_liquidity_pool(&env, market_id).unwrap();
    let fees = pool_before.fees_accumulated;
    assert!(fees > 0);

    let distributed = PredictionMarket::distribute_fees(&mut env, admin, market_id).unwrap();
    assert_eq!(distributed, fees);

    let pool_after = PredictionMarket::get_liquidity_pool(&env, market_id).unwrap();
    assert_eq!(pool_after.fees_accumulated, 0);
}

// Market closing tests

#[test]
fn test_early_close() {
    let (mut env, admin) = setup();
    let market_id = create_binary_market(&mut env, admin);

    let result = PredictionMarket::early_close(&mut env, admin, market_id).unwrap();
    assert_eq!(result, Symbol::new("ok"));

    let market = PredictionMarket::get_market(&env, market_id).unwrap();
    assert_eq!(market.status, MarketStatus::Closed);
}

#[test]
fn test_early_close_unauthorized() {
    let (mut env, admin) = setup();
    let market_id = create_binary_market(&mut env, admin);

    let random_user = address(&mut env);
    assert_eq!(
        PredictionMarket::early_close(&mut env, random_user, market_id),
        Err(PredictionError::Unauthorized),
    );
}

#[test]
fn test_cancel_market() {
    let (mut env, admin) = setup();
    let market_id = create_binary_market(&mut env, admin);

    let result = PredictionMarket::cancel_market(&mut env, admin, market_id).unwrap();
    assert_eq!(result, Symbol::new("ok"));

    let market = PredictionMarket::get_market(&env, market_id).unwrap();
    assert_eq!(market.status, MarketStatus::Cancelled);
}

#[test]
fn test_cancel_market_with_trades_fails() {
    let (mut env, admin) = setup();
    let market_id = create_binary_market(&mut env, admin);
    PredictionMarket::create_liquidity_pool(&mut env, admin, market_id, 100_000).unwrap();

    let buyer = address(&mut env);
    let _ = PredictionMarket::buy_outcome(&mut env, buyer, market_id, 0, 10_000, 0).unwrap();

    assert_eq!(
        PredictionMarket::cancel_market(&mut env, admin, market_id),
        Err(PredictionError::ActivePositionsExist),
    );
}

// Multi-outcome market tests

#[test]
fn test_multi_outcome_market() {
    let (mut env, admin) = setup();
    let market_id = create_multi_market(&mut env, admin);

    PredictionMarket::create_liquidity_pool(&mut env, admin, market_id, 100_000).unwrap();

    let buyer = address(&mut env);
    let r0 = PredictionMarket::buy_outcome(&mut env, buyer, market_id, 0, 10_000, 0).unwrap();
    let r1 = PredictionMarket::buy_outcome(&mut env, buyer, market_id, 1, 10_000, 0).unwrap();
    let r2 = PredictionMarket::buy_outcome(&mut env, buyer, market_id, 2, 10_000, 0).unwrap();

    assert!(r0.outcome_amount > 0);
    assert!(r1.outcome_amount > 0);
    assert!(r2.outcome_amount > 0);

    assert!(PredictionMarket::check_invariant(&env, market_id));

    let prices = PredictionMarket::get_all_prices(&env, market_id).unwrap();
    assert_eq!(prices.len(), 3);

    let price0 = PredictionMarket::get_outcome_price(&env, market_id, 0).unwrap();
    let initial_price = 1_000_000_000_000_000_000_i128;
    assert!(price0 > initial_price);
}

// Trading volume tests

#[test]
fn test_trading_volume_tracking() {
    let (mut env, admin) = setup();
    let market_id = create_binary_market(&mut env, admin);
    PredictionMarket::create_liquidity_pool(&mut env, admin, market_id, 100_000).unwrap();

    let buyer = address(&mut env);
    let _ = PredictionMarket::buy_outcome(&mut env, buyer, market_id, 0, 5_000, 0).unwrap();
    let _ = PredictionMarket::buy_outcome(&mut env, buyer, market_id, 0, 3_000, 0).unwrap();

    let volume = PredictionMarket::get_trading_volume(&env, market_id);
    assert_eq!(volume, 8_000);
}

// Edge cases

#[test]
fn test_get_nonexistent_market() {
    let mut env = PredictionEnv::new(0);
    let admin = address(&mut env);
    PredictionMarket::initialize(&mut env, admin).unwrap();

    assert!(PredictionMarket::get_market(&env, 999).is_none());
}

#[test]
fn test_pool_for_nonexistent_market() {
    let (env, _admin) = setup();
    assert_eq!(
        PredictionMarket::get_liquidity_pool(&env, 999),
        Err(PredictionError::NoLiquidityPool),
    );
}

#[test]
fn test_zero_amount_trade() {
    let (mut env, admin) = setup();
    let market_id = create_binary_market(&mut env, admin);
    PredictionMarket::create_liquidity_pool(&mut env, admin, market_id, 100_000).unwrap();

    let buyer = address(&mut env);
    assert_eq!(
        PredictionMarket::buy_outcome(&mut env, buyer, market_id, 0, 0, 0),
        Err(PredictionError::InvalidOrderAmount),
    );
}

#[test]
fn test_admin_only_functions() {
    let (mut env, admin) = setup();
    let market_id = create_binary_market(&mut env, admin);

    let random_user = address(&mut env);

    assert_eq!(
        PredictionMarket::distribute_fees(&mut env, random_user, market_id),
        Err(PredictionError::Unauthorized),
    );

    assert_eq!(
        PredictionMarket::resolve_dispute(&mut env, random_user, market_id, true),
        Err(PredictionError::Unauthorized),
    );
}

// Fuzzing-style tests for CPMM invariant

#[test]
fn test_cpmm_invariant_across_many_buys() {
    let (mut env, admin) = setup();
    let market_id = create_binary_market(&mut env, admin);
    PredictionMarket::create_liquidity_pool(&mut env, admin, market_id, 1_000_000).unwrap();

    let amounts: [i128; 20] = [
        100, 500, 1000, 2000, 500, 3000, 100, 2500, 750, 4000, 200, 1500, 800, 3500, 100, 2000,
        600, 1200, 900, 300,
    ];

    for (i, &amount) in amounts.iter().enumerate() {
        let buyer = address(&mut env);
        let outcome = if i % 2 == 0 { 0u32 } else { 1u32 };
        let result = PredictionMarket::buy_outcome(
            &mut env,
            buyer,
            market_id,
            outcome,
            amount,
            0,
        )
        .unwrap();
        assert_eq!(result.collateral_amount, amount);
        assert!(
            PredictionMarket::check_invariant(&env, market_id),
            "Invariant failed after trade {} (amount={}, outcome={})",
            i,
            amount,
            outcome
        );
    }
}

#[test]
fn test_cpmm_invariant_across_buys_and_sells() {
    let (mut env, admin) = setup();
    let market_id = create_binary_market(&mut env, admin);
    PredictionMarket::create_liquidity_pool(&mut env, admin, market_id, 1_000_000).unwrap();

    let buyer = address(&mut env);

    let buy_result = PredictionMarket::buy_outcome(
        &mut env,
        buyer,
        market_id,
        0,
        100_000,
        0,
    )
    .unwrap();
    let bought = buy_result.outcome_amount;

    // Use conservative sell amounts that won't exceed total balance
    let sell_amounts = [bought / 10, bought / 10, bought / 10, bought / 10];
    for &amount in &sell_amounts {
        if amount > 0 {
            let _ = PredictionMarket::sell_outcome(
                &mut env,
                buyer,
                market_id,
                0,
                amount,
                0,
            )
            .unwrap();
            assert!(
                PredictionMarket::check_invariant(&env, market_id),
                "Invariant failed after sell of {}",
                amount
            );
        }
    }
}
