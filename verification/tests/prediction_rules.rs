//! Exact amounts, refusals and laws of the prediction markets.

use astraport::base::address::Address;
use astraport::base::symbol::Symbol;
use astraport::prediction::contract::PredictionMarket;
use astraport::prediction::cpmm;
use astraport::prediction::oracle;
use astraport::prediction::orderbook;
use astraport::prediction::settlement;
use astraport::prediction::state::{PredictionEnv, PredictionEvent};
use astraport::prediction::types::{
    DisputeStatus, LPResult, LiquidityPool, MarketCategory, MarketStatus, OracleSource, OrderSide,
    OrderStatus, Outcome, PredictionError, SwapResult, DECIMAL_PRECISION, MAX_ACTIVE_MARKETS,
};

/// A new address that signs every call.
fn address(env: &mut PredictionEnv) -> Address {
    let text = format!("G{:0>55}", env.auths.len() + 1);
    let made = Address::from_text(text.as_bytes());
    env.auths.push(made);
    made
}

fn setup() -> (PredictionEnv, Address) {
    let mut env = PredictionEnv::new(0);
    let admin = address(&mut env);
    PredictionMarket::initialize(&mut env, admin).unwrap();
    (env, admin)
}

fn outcomes() -> Vec<Outcome> {
    vec![
        Outcome { name: Symbol::new("Yes"), index: 0 },
        Outcome { name: Symbol::new("No"), index: 1 },
    ]
}

fn market(env: &mut PredictionEnv, admin: Address) -> u64 {
    let now = env.timestamp;
    PredictionMarket::create_market(
        env,
        admin,
        Symbol::new("BTC100k"),
        MarketCategory::Crypto,
        outcomes(),
        now + 86400,
        now + 172800,
        Symbol::new("Chainlink"),
        1_000_000_000,
        30,
        true,
    )
    .unwrap()
}

/// A market with a pool of 100 000.
fn pooled() -> (PredictionEnv, Address, u64) {
    let (mut env, admin) = setup();
    let id = market(&mut env, admin);
    PredictionMarket::create_liquidity_pool(&mut env, admin, id, 100_000).unwrap();
    (env, admin, id)
}

/// The market awaits its resolution.
fn end_trading(env: &mut PredictionEnv, id: u64) {
    env.timestamp += 172800;
    PredictionMarket::finalize_trading(env, id).unwrap();
}

fn resolve(env: &mut PredictionEnv, id: u64, outcome: u32) {
    end_trading(env, id);
    PredictionMarket::submit_resolution(env, id, Symbol::new("Chainlink"), outcome).unwrap();
}

// Constant product

#[test]
fn a_buy_follows_the_constant_product() {
    let (mut env, _admin, id) = pooled();
    let buyer = address(&mut env);
    let swap = PredictionMarket::buy_outcome(&mut env, buyer, id, 0, 10_000, 9_067).unwrap();
    assert_eq!(
        swap,
        SwapResult {
            outcome_amount: 9_067,
            collateral_amount: 10_000,
            fee: 30,
            price_impact_bps: 997,
        }
    );
    let pool = PredictionMarket::get_liquidity_pool(&env, id).unwrap();
    assert_eq!(pool.collateral_reserve, 109_970);
    assert_eq!(pool.outcome_reserves, vec![90_933, 100_000]);
    assert_eq!(pool.k_per_outcome, vec![109_970 * 90_933, 109_970 * 100_000]);
    assert_eq!(pool.fees_accumulated, 30);
    assert_eq!(pool.total_volume, 10_000);
    assert!(cpmm::verify_invariant(&pool));
}

#[test]
fn a_sale_follows_the_constant_product() {
    let (mut env, _admin, id) = pooled();
    let trader = address(&mut env);
    PredictionMarket::buy_outcome(&mut env, trader, id, 0, 10_000, 0).unwrap();
    let swap = PredictionMarket::sell_outcome(&mut env, trader, id, 0, 5_000, 5_715).unwrap();
    assert_eq!(
        swap,
        SwapResult {
            outcome_amount: 5_000,
            collateral_amount: 5_715,
            fee: 17,
            price_impact_bps: 521,
        }
    );
    let pool = PredictionMarket::get_liquidity_pool(&env, id).unwrap();
    assert_eq!(pool.collateral_reserve, 104_238);
    assert_eq!(pool.outcome_reserves, vec![95_933, 100_000]);
    assert_eq!(pool.fees_accumulated, 47);
    assert_eq!(PredictionMarket::get_outcome_balance(&env, id, trader, 0), 4_067);
    assert_eq!(PredictionMarket::get_trading_volume(&env, id), 15_715);
}

#[test]
fn slippage_is_refused_without_a_trace() {
    let (mut env, _admin, id) = pooled();
    let buyer = address(&mut env);
    let events = env.events.len();
    assert_eq!(
        PredictionMarket::buy_outcome(&mut env, buyer, id, 0, 10_000, 9_068),
        Err(PredictionError::SlippageExceeded)
    );
    assert_eq!(env.events.len(), events);
    assert_eq!(PredictionMarket::get_outcome_balance(&env, id, buyer, 0), 0);
    PredictionMarket::buy_outcome(&mut env, buyer, id, 0, 10_000, 0).unwrap();
    assert_eq!(
        PredictionMarket::sell_outcome(&mut env, buyer, id, 0, 5_000, 5_716),
        Err(PredictionError::SlippageExceeded)
    );
}

#[test]
fn trades_that_give_nothing_are_refused() {
    let (mut env, _admin, id) = pooled();
    let pool = PredictionMarket::get_liquidity_pool(&env, id).unwrap();
    let mut lean = pool.copy();
    lean.outcome_reserves[0] = 1;
    lean.k_per_outcome[0] = 100_000;
    assert_eq!(
        cpmm::sell_outcome_tokens(&mut lean, 0, -1, 30, 0),
        Err(PredictionError::InvalidOrderAmount)
    );
    let mut costly = pool.copy();
    assert_eq!(
        cpmm::sell_outcome_tokens(&mut costly, 0, 5, 10_000, 0),
        Err(PredictionError::InsufficientLiquidity)
    );
    assert_eq!(costly, pool);
    let buyer = address(&mut env);
    assert_eq!(
        PredictionMarket::buy_outcome(&mut env, buyer, id, 0, i128::MAX, 0),
        Err(PredictionError::ArithmeticOverflow)
    );
}

#[test]
fn the_cap_bounds_what_the_pool_issues() {
    let (mut env, admin) = setup();
    let now = env.timestamp;
    let id = PredictionMarket::create_market(
        &mut env,
        admin,
        Symbol::new("Capped"),
        MarketCategory::Weather,
        outcomes(),
        now + 10,
        now + 20,
        Symbol::new("Oracle"),
        205_000,
        30,
        true,
    )
    .unwrap();
    PredictionMarket::create_liquidity_pool(&mut env, admin, id, 100_000).unwrap();
    let buyer = address(&mut env);
    assert_eq!(
        PredictionMarket::buy_outcome(&mut env, buyer, id, 0, 5_001, 0),
        Err(PredictionError::MarketCapReached)
    );
    assert!(PredictionMarket::buy_outcome(&mut env, buyer, id, 0, 5_000, 0).is_ok());
}

#[test]
fn prices_follow_the_reserves() {
    let (mut env, _admin, id) = pooled();
    let buyer = address(&mut env);
    PredictionMarket::buy_outcome(&mut env, buyer, id, 0, 10_000, 0).unwrap();
    let price = PredictionMarket::get_outcome_price(&env, id, 0).unwrap();
    assert_eq!(price, 109_970 * DECIMAL_PRECISION / 90_933);
    assert_eq!(
        PredictionMarket::get_all_prices(&env, id).unwrap(),
        vec![price, 109_970 * DECIMAL_PRECISION / 100_000]
    );
    assert_eq!(
        PredictionMarket::get_outcome_price(&env, id, 2),
        Err(PredictionError::InvalidOutcomeIndex)
    );
}

// Liquidity

#[test]
fn liquidity_comes_and_goes_in_proportion() {
    let (mut env, admin, id) = pooled();
    let provider = address(&mut env);
    let added = PredictionMarket::add_liquidity(&mut env, provider, id, 50_000).unwrap();
    assert_eq!(
        added,
        LPResult {
            lp_tokens_minted: 50_000,
            collateral_deposited: 50_000,
            outcome_deposits: vec![50_000, 50_000],
        }
    );
    let removed = PredictionMarket::remove_liquidity(&mut env, provider, id, 30_000).unwrap();
    assert_eq!(removed.collateral_deposited, 30_000);
    assert_eq!(removed.outcome_deposits, vec![30_000, 30_000]);
    assert_eq!(PredictionMarket::get_lp_balance(&env, id, provider), 20_000);
    assert!(PredictionMarket::check_invariant(&env, id));
    assert_eq!(
        PredictionMarket::remove_liquidity(&mut env, admin, id, 120_001),
        Err(PredictionError::InvalidOrderAmount)
    );
    assert_eq!(
        PredictionMarket::remove_liquidity(&mut env, admin, id, 100_001),
        Err(PredictionError::InsufficientBalance)
    );
    PredictionMarket::remove_liquidity(&mut env, admin, id, 100_000).unwrap();
    PredictionMarket::remove_liquidity(&mut env, provider, id, 20_000).unwrap();
    let pool = PredictionMarket::get_liquidity_pool(&env, id).unwrap();
    assert_eq!(pool.collateral_reserve, 0);
    assert_eq!(pool.outcome_reserves, vec![0, 0]);
}

#[test]
fn fees_go_into_the_reserve() {
    let (mut env, admin, id) = pooled();
    let buyer = address(&mut env);
    PredictionMarket::buy_outcome(&mut env, buyer, id, 0, 10_000, 0).unwrap();
    assert_eq!(PredictionMarket::distribute_fees(&mut env, admin, id), Ok(30));
    let pool = PredictionMarket::get_liquidity_pool(&env, id).unwrap();
    assert_eq!(pool.collateral_reserve, 110_000);
    assert_eq!(pool.k_per_outcome, vec![110_000 * 90_933, 110_000 * 100_000]);
    assert_eq!(PredictionMarket::distribute_fees(&mut env, admin, id), Ok(0));
}

#[test]
fn pools_need_an_open_market() {
    let (mut env, admin) = setup();
    assert_eq!(
        PredictionMarket::create_liquidity_pool(&mut env, admin, 1, 100_000),
        Err(PredictionError::MarketNotFound)
    );
    let id = market(&mut env, admin);
    assert_eq!(
        PredictionMarket::add_liquidity(&mut env, admin, id, 100_000),
        Err(PredictionError::NoLiquidityPool)
    );
    assert_eq!(
        PredictionMarket::create_liquidity_pool(&mut env, admin, id, i128::MAX),
        Err(PredictionError::ArithmeticOverflow)
    );
    PredictionMarket::early_close(&mut env, admin, id).unwrap();
    assert_eq!(
        PredictionMarket::create_liquidity_pool(&mut env, admin, id, 100_000),
        Err(PredictionError::MarketNotTradable)
    );
}

// Orders

#[test]
fn orders_are_checked_and_owned() {
    let (mut env, admin) = setup();
    let id = market(&mut env, admin);
    let owner = address(&mut env);
    let other = address(&mut env);
    for (price, amount) in [(0, 5), (5, 0), (-1, 5)] {
        assert_eq!(
            PredictionMarket::place_order(&mut env, owner, id, 0, OrderSide::Buy, price, amount),
            Err(PredictionError::InvalidOrderAmount)
        );
    }
    let order = PredictionMarket::place_order(&mut env, owner, id, 0, OrderSide::Buy, 5, 7).unwrap();
    assert_eq!(
        PredictionMarket::cancel_order(&mut env, other, id, order),
        Err(PredictionError::NotOrderOwner)
    );
    assert_eq!(
        PredictionMarket::cancel_order(&mut env, owner, id, 99),
        Err(PredictionError::OrderNotFound)
    );
    PredictionMarket::cancel_order(&mut env, admin, id, order).unwrap();
    assert_eq!(
        PredictionMarket::cancel_order(&mut env, owner, id, order),
        Err(PredictionError::OrderNotFound)
    );
}

#[test]
fn matching_prefers_price_and_age_and_keeps_quantities() {
    let (mut env, admin) = setup();
    let id = market(&mut env, admin);
    let makers: Vec<Address> = (0..4).map(|_| address(&mut env)).collect();
    let asks = [(600, 10), (500, 4), (500, 6), (700, 50)];
    for (i, (price, amount)) in asks.iter().enumerate() {
        PredictionMarket::place_order(
            &mut env,
            makers[i],
            id,
            0,
            OrderSide::Sell,
            *price,
            *amount,
        )
        .unwrap();
    }
    let taker = address(&mut env);
    let (fills, filled) =
        orderbook::match_order(&mut env, id, taker, 0, OrderSide::Buy, 25, 600, 30);
    let traded: Vec<(i128, i128)> = fills.iter().map(|f| (f.price, f.amount)).collect();
    assert_eq!(traded, vec![(500, 4), (500, 6), (600, 10)]);
    assert_eq!(fills[0].order_id, 2);
    assert_eq!(fills[1].order_id, 3);
    assert_eq!(filled, 20);
    assert_eq!(PredictionMarket::get_order(&env, id, 2).unwrap().status, OrderStatus::Filled);
    let left = PredictionMarket::get_order_book(&env, id, 0);
    assert_eq!(left.ask_count, 1);
    assert_eq!(left.best_ask, 700);
    assert_eq!(left.bid_count, 0);
}

#[test]
fn a_partly_filled_order_stays_in_the_book() {
    let (mut env, admin) = setup();
    let id = market(&mut env, admin);
    PredictionMarket::place_order(&mut env, admin, id, 1, OrderSide::Buy, 400, 100).unwrap();
    let taker = address(&mut env);
    let (fills, filled) =
        orderbook::match_order(&mut env, id, taker, 1, OrderSide::Sell, 30, 400, 0);
    assert_eq!(fills.len(), 1);
    assert_eq!(fills[0].amount, 30);
    assert_eq!(filled, 30);
    let order = PredictionMarket::get_order(&env, id, 1).unwrap();
    assert_eq!(order.remaining, 70);
    assert_eq!(order.status, OrderStatus::PartiallyFilled);
    let (none, filled) = orderbook::match_order(&mut env, id, taker, 1, OrderSide::Sell, 30, 401, 0);
    assert!(none.is_empty());
    assert_eq!(filled, 0);
}

// Resolution and disputes

#[test]
fn only_the_active_oracle_resolves_in_time() {
    let (mut env, admin) = setup();
    let id = market(&mut env, admin);
    let chainlink = Symbol::new("Chainlink");
    assert_eq!(
        PredictionMarket::submit_resolution(&mut env, id, chainlink, 0),
        Err(PredictionError::MarketNotTradable)
    );
    env.timestamp = 86400;
    PredictionMarket::finalize_trading(&mut env, id).unwrap();
    assert_eq!(
        PredictionMarket::finalize_trading(&mut env, id),
        Err(PredictionError::InvalidMarketParams)
    );
    assert_eq!(
        PredictionMarket::submit_resolution(&mut env, id, chainlink, 0),
        Err(PredictionError::ResolutionWindowNotClosed)
    );
    env.timestamp = 172800;
    assert_eq!(
        PredictionMarket::submit_resolution(&mut env, id, chainlink, 2),
        Err(PredictionError::InvalidOutcomeIndex)
    );
    let source = oracle::get_oracle_source(&env, id).unwrap();
    oracle::set_oracle_source(&mut env, id, OracleSource { is_active: false, ..source }).unwrap();
    assert_eq!(
        PredictionMarket::submit_resolution(&mut env, id, chainlink, 0),
        Err(PredictionError::OracleNotConfigured)
    );
    oracle::set_oracle_source(&mut env, id, source).unwrap();
    assert!(PredictionMarket::submit_resolution(&mut env, id, chainlink, 1).is_ok());
    let resolved = PredictionMarket::get_market(&env, id).unwrap();
    assert_eq!(resolved.resolved_at, Some(172800));
    assert!(oracle::can_dispute(&resolved, 172800 + 86400));
    assert!(!oracle::can_dispute(&resolved, 172800 + 86401));
}

#[test]
fn disputes_need_a_bond_and_come_in_time() {
    let (mut env, admin, id) = pooled();
    let disputer = address(&mut env);
    let evidence = Symbol::new("photo");
    assert_eq!(
        PredictionMarket::file_dispute(&mut env, disputer, id, 1, evidence, 1_000),
        Err(PredictionError::MarketNotResolved)
    );
    resolve(&mut env, id, 0);
    assert_eq!(
        PredictionMarket::file_dispute(&mut env, disputer, id, 1, evidence, 999),
        Err(PredictionError::InsufficientBalance)
    );
    assert_eq!(
        PredictionMarket::file_dispute(&mut env, disputer, id, 5, evidence, 1_000),
        Err(PredictionError::InvalidOutcomeIndex)
    );
    assert_eq!(
        PredictionMarket::resolve_dispute(&mut env, admin, id, true),
        Err(PredictionError::NoDispute)
    );
    env.timestamp += 86401;
    assert_eq!(
        PredictionMarket::file_dispute(&mut env, disputer, id, 1, evidence, 1_000),
        Err(PredictionError::DisputePeriodExpired)
    );
    env.timestamp -= 1;
    let dispute =
        PredictionMarket::file_dispute(&mut env, disputer, id, 1, evidence, 1_000).unwrap();
    assert_eq!(dispute.disputer, disputer);
    assert_eq!(PredictionMarket::get_dispute(&env, id), Some(dispute));
    let decided = PredictionMarket::resolve_dispute(&mut env, admin, id, true).unwrap();
    assert_eq!(decided.status, DisputeStatus::Accepted);
    assert_eq!(PredictionMarket::get_resolution(&env, id).unwrap().resolved_outcome, 1);
    assert_eq!(
        PredictionMarket::resolve_dispute(&mut env, admin, id, true),
        Err(PredictionError::InvalidMarketParams)
    );
}

// Settlement

#[test]
fn positions_average_their_entry_price() {
    let (mut env, admin) = setup();
    let id = market(&mut env, admin);
    let user = address(&mut env);
    settlement::record_trade(&mut env, id, user, 0, true, 10, 3).unwrap();
    settlement::record_trade(&mut env, id, user, 0, true, 30, 7).unwrap();
    let position = PredictionMarket::get_user_position(&env, id, user).unwrap();
    assert_eq!(position.outcome_amounts[0], 40);
    assert_eq!(position.entry_prices[0], 6);
    assert_eq!(position.total_spent, 240);
    settlement::record_trade(&mut env, id, user, 0, false, 15, 8).unwrap();
    let position = PredictionMarket::get_user_position(&env, id, user).unwrap();
    assert_eq!(position.outcome_amounts[0], 25);
    assert_eq!(position.total_spent, 120);
    let all = settlement::get_market_positions(&env, id, &vec![admin, user]);
    assert_eq!(all.len(), 1);
    assert_eq!(all[0].user, user);
}

#[test]
fn redeeming_pays_one_to_one_and_once() {
    let (mut env, _admin, id) = pooled();
    let user = address(&mut env);
    PredictionMarket::buy_outcome(&mut env, user, id, 0, 10_000, 0).unwrap();
    resolve(&mut env, id, 0);
    assert_eq!(
        PredictionMarket::redeem_tokens(&mut env, user, id, 0),
        Err(PredictionError::InvalidOrderAmount)
    );
    assert_eq!(PredictionMarket::redeem_tokens(&mut env, user, id, 67), Ok(67));
    let position = PredictionMarket::get_user_position(&env, id, user).unwrap();
    assert_eq!(position.outcome_amounts[0], 9_000);
    assert!(!position.settled);
    assert_eq!(
        PredictionMarket::redeem_tokens(&mut env, user, id, 9_001),
        Err(PredictionError::InsufficientBalance)
    );
    assert_eq!(PredictionMarket::redeem_tokens(&mut env, user, id, 9_000), Ok(9_000));
    assert_eq!(
        PredictionMarket::redeem_tokens(&mut env, user, id, 1),
        Err(PredictionError::MarketAlreadyResolved)
    );
    assert_eq!(
        PredictionMarket::settle_position(&mut env, user, id),
        Err(PredictionError::MarketAlreadyResolved)
    );
}

#[test]
fn settling_pays_the_winning_tokens_and_once() {
    let (mut env, _admin, id) = pooled();
    let user = address(&mut env);
    let loser = address(&mut env);
    PredictionMarket::buy_outcome(&mut env, user, id, 0, 10_000, 0).unwrap();
    PredictionMarket::buy_outcome(&mut env, loser, id, 1, 10_000, 0).unwrap();
    assert_eq!(
        PredictionMarket::settle_position(&mut env, user, id),
        Err(PredictionError::MarketNotResolved)
    );
    resolve(&mut env, id, 0);
    assert_eq!(PredictionMarket::settle_position(&mut env, user, id), Ok(9_067));
    assert_eq!(
        env.events.last(),
        Some(&PredictionEvent::Settled { market_id: id, user, payout: 9_067 })
    );
    assert_eq!(PredictionMarket::settle_position(&mut env, loser, id), Ok(0));
    let settled = PredictionMarket::get_user_position(&env, id, user).unwrap();
    assert!(settled.settled);
    // 9 067 tokens were bought at a price that rounds down to 1.
    assert_eq!(settled.pnl, Some(0));
    assert_eq!(
        PredictionMarket::settle_position(&mut env, user, id),
        Err(PredictionError::MarketAlreadyResolved)
    );
}

// Closing

#[test]
fn closed_markets_stay_closed() {
    let (mut env, admin, id) = pooled();
    PredictionMarket::early_close(&mut env, admin, id).unwrap();
    let pool = PredictionMarket::get_liquidity_pool(&env, id).unwrap();
    assert_eq!(pool.outcome_reserves, vec![0, 0]);
    assert_eq!(pool.collateral_reserve, 100_000);
    assert_eq!(
        PredictionMarket::early_close(&mut env, admin, id),
        Err(PredictionError::InvalidMarketParams)
    );
    env.timestamp = 172800;
    assert_eq!(
        PredictionMarket::finalize_trading(&mut env, id),
        Err(PredictionError::InvalidMarketParams)
    );
    assert_eq!(
        PredictionMarket::submit_resolution(&mut env, id, Symbol::new("Chainlink"), 0),
        Err(PredictionError::MarketNotTradable)
    );
    assert_eq!(PredictionMarket::get_market(&env, id).unwrap().status, MarketStatus::Closed);
}

#[test]
fn error_codes_count_from_one() {
    assert_eq!(PredictionError::AlreadyInitialized.code(), 1);
    assert_eq!(PredictionError::ArithmeticOverflow.code(), 16);
    assert_eq!(PredictionError::AlreadyExists.code(), 29);
}

// Parts of a market

#[test]
fn pools_are_created_once_and_read_back() {
    let (mut env, admin) = setup();
    let id = market(&mut env, admin);
    assert_eq!(cpmm::load_pool(&env, id), Err(PredictionError::NoLiquidityPool));
    let pool = cpmm::create_pool(&mut env, id, 2, 100_000).unwrap();
    assert_eq!(pool.outcome_reserves, vec![100_000, 100_000]);
    assert_eq!(pool.k_per_outcome, vec![10_000_000_000, 10_000_000_000]);
    assert_eq!(cpmm::load_pool(&env, id), Ok(pool));
}

#[test]
fn the_book_lists_its_orders() {
    let (mut env, admin) = setup();
    let id = market(&mut env, admin);
    assert_eq!(orderbook::load_order_book(&env, id), Ok(vec![]));
    assert_eq!(orderbook::next_order_id(&mut env, id), 1);
    let placed =
        PredictionMarket::place_order(&mut env, admin, id, 0, OrderSide::Buy, 5, 7).unwrap();
    assert_eq!(placed, 2);
    let book = orderbook::load_order_book(&env, id).unwrap();
    assert_eq!(book.len(), 1);
    assert_eq!(Some(book[0]), PredictionMarket::get_order(&env, id, placed));
}

#[test]
fn windows_close_on_time() {
    let (mut env, admin) = setup();
    let id = market(&mut env, admin);
    let made = PredictionMarket::get_market(&env, id).unwrap();
    assert_eq!(made.num_outcomes(), 2);
    assert!(made.is_tradable() && made.is_trading_open(0));
    assert!(!made.is_resolution_window_closed(172_799));
    assert!(made.is_resolution_window_closed(172_800));
    assert!(!oracle::can_resolve(&made, 172_800));
    end_trading(&mut env, id);
    let ended = PredictionMarket::get_market(&env, id).unwrap();
    assert!(!ended.is_tradable());
    assert!(!oracle::can_resolve(&ended, 172_799));
    assert!(oracle::can_resolve(&ended, 172_800));
}

#[test]
fn the_winning_tokens_are_paid_out() {
    let (mut env, _admin, id) = pooled();
    let buyer = address(&mut env);
    let swap = PredictionMarket::buy_outcome(&mut env, buyer, id, 1, 10_000, 0).unwrap();
    let position = settlement::get_position(&env, id, buyer).unwrap();
    let open = PredictionMarket::get_market(&env, id).unwrap();
    assert_eq!(
        settlement::calculate_payout(&open, &position),
        Err(PredictionError::MarketNotResolved)
    );
    resolve(&mut env, id, 1);
    let resolved = PredictionMarket::get_market(&env, id).unwrap();
    assert_eq!(settlement::calculate_payout(&resolved, &position), Ok(swap.outcome_amount));
}

#[test]
fn later_deposits_bring_the_collateral_given() {
    let mut pool = LiquidityPool {
        market_id: 1,
        collateral_reserve: 2_000,
        outcome_reserves: vec![500, 1_000],
        lp_supply: 1_000,
        k_per_outcome: vec![1_000_000, 2_000_000],
        fees_accumulated: 0,
        total_volume: 0,
    };
    assert_eq!(
        cpmm::add_liquidity(&mut pool, 200, vec![50, 100]),
        Ok(LPResult {
            lp_tokens_minted: 100,
            collateral_deposited: 200,
            outcome_deposits: vec![50, 100],
        })
    );
    assert_eq!(pool.collateral_reserve, 2_200);
    assert_eq!(pool.outcome_reserves, vec![550, 1_100]);
    assert_eq!(pool.lp_supply, 1_100);
    assert_eq!(pool.k_per_outcome, vec![1_210_000, 2_420_000]);
}

#[test]
fn liquidity_is_taken_out_by_its_holders() {
    let (mut env, _admin, id) = pooled();
    let stranger = address(&mut env);
    assert_eq!(
        PredictionMarket::remove_liquidity(&mut env, stranger, id, 1_000),
        Err(PredictionError::InsufficientBalance)
    );
    assert_eq!(PredictionMarket::get_lp_balance(&env, id, stranger), 0);
    let pool = PredictionMarket::get_liquidity_pool(&env, id).unwrap();
    assert_eq!((pool.collateral_reserve, pool.lp_supply), (100_000, 100_000));
}

#[test]
fn a_new_pool_takes_the_place_of_the_old_one() {
    let (mut env, admin, id) = pooled();
    let other = address(&mut env);
    let result = PredictionMarket::create_liquidity_pool(&mut env, other, id, 5_000).unwrap();
    assert_eq!((result.lp_tokens_minted, result.collateral_deposited), (5_000, 5_000));
    let pool = PredictionMarket::get_liquidity_pool(&env, id).unwrap();
    assert_eq!((pool.collateral_reserve, pool.lp_supply), (5_000, 5_000));
    assert_eq!(PredictionMarket::get_market(&env, id).unwrap().total_collateral, 5_000);
    assert_eq!(PredictionMarket::get_lp_balance(&env, id, admin), 100_000);
    assert_eq!(PredictionMarket::get_lp_balance(&env, id, other), 5_000);
    assert_eq!(env.lp_total_supply.copied(id), Some(105_000));
}

#[test]
fn the_bond_of_a_dispute_is_one_percent_as_far_as_it_fits() {
    let (mut env, _admin, id) = pooled();
    let disputer = address(&mut env);
    let evidence = Symbol::new("photo");
    resolve(&mut env, id, 0);
    let mut market = PredictionMarket::get_market(&env, id).unwrap();
    market.total_collateral = i128::MAX / 100;
    assert_eq!(
        oracle::file_dispute(&mut env, &market, disputer, 1, evidence, i128::MAX / 10_000 - 1),
        Err(PredictionError::InsufficientBalance)
    );
    market.total_collateral += 1;
    assert!(oracle::file_dispute(&mut env, &market, disputer, 1, evidence, 0).is_ok());
}

#[test]
fn sold_tokens_cannot_be_redeemed() {
    let (mut env, _admin, id) = pooled();
    let trader = address(&mut env);
    let bought = PredictionMarket::buy_outcome(&mut env, trader, id, 0, 10_000, 0).unwrap();
    PredictionMarket::sell_outcome(&mut env, trader, id, 0, 5_000, 0).unwrap();
    let left = bought.outcome_amount - 5_000;
    let position = PredictionMarket::get_user_position(&env, id, trader).unwrap();
    assert_eq!(position.outcome_amounts[0], left);
    assert_eq!(PredictionMarket::get_outcome_balance(&env, id, trader, 0), left);
    resolve(&mut env, id, 0);
    assert_eq!(
        PredictionMarket::redeem_tokens(&mut env, trader, id, left + 1),
        Err(PredictionError::InsufficientBalance)
    );
    assert_eq!(PredictionMarket::redeem_tokens(&mut env, trader, id, left), Ok(left));
}

#[test]
fn sales_stop_at_what_a_position_holds() {
    let (mut env, _admin, id) = pooled();
    let user = address(&mut env);
    assert_eq!(settlement::record_trade(&mut env, id, user, 0, true, 10, 2), Ok(()));
    assert_eq!(
        settlement::record_trade(&mut env, id, user, 0, false, 11, 2),
        Err(PredictionError::InsufficientBalance)
    );
    assert_eq!(
        settlement::record_trade(&mut env, id, user, 0, false, i128::MIN, 2),
        Err(PredictionError::InsufficientBalance)
    );
    assert_eq!(settlement::record_trade(&mut env, id, user, 0, false, 10, 2), Ok(()));
    let position = settlement::get_position(&env, id, user).unwrap();
    assert_eq!((position.outcome_amounts[0], position.total_spent), (0, 0));
}

#[test]
fn markets_beyond_the_limit_are_refused() {
    let (mut env, admin) = setup();
    let id = market(&mut env, admin);
    while env.market_list.len() < MAX_ACTIVE_MARKETS as usize {
        env.market_list.push(id);
    }
    let refused = PredictionMarket::create_market(
        &mut env,
        admin,
        Symbol::new("one_more"),
        MarketCategory::Crypto,
        outcomes(),
        86_400,
        172_800,
        Symbol::new("Chainlink"),
        0,
        30,
        true,
    );
    assert_eq!(refused, Err(PredictionError::MarketCapReached));
    env.market_list.pop();
    assert_eq!(market(&mut env, admin), id + 1);
}
