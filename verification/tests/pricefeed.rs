//! Providers, prices, aggregation, fallbacks, history and the cache.

use astraport::base::address::Address;
use astraport::base::symbol::Symbol;
use astraport::pricefeed::contract::PriceFeedContract;
use astraport::pricefeed::records::{
    BatchPriceRequest, OracleProvider, PriceDataPoint, PriceStatus, PriceValidationConfig,
};
use astraport::pricefeed::state::PriceFeedEnv;

/// A new address that signs every call.
fn address(env: &mut PriceFeedEnv) -> Address {
    let text = format!("G{:0>55}", env.auths.len() + 1);
    let made = Address::from_text(text.as_bytes());
    env.auths.push(made);
    made
}

fn setup() -> (PriceFeedEnv, Address) {
    let mut env = PriceFeedEnv::new(0);
    let admin = address(&mut env);
    PriceFeedContract::initialize(&mut env, admin);
    (env, admin)
}

fn make_provider(id: &str, name: &str, trust_weight: u32) -> OracleProvider {
    OracleProvider {
        provider_id: Symbol::new(id),
        name: Symbol::new(name),
        endpoint: Address::from_text(format!("C{:0>55}", 1).as_bytes()),
        trust_weight,
        is_active: true,
        max_staleness: 300,
    }
}

fn make_data_point(asset: &str, provider: &str, price: i128, ts: u64) -> PriceDataPoint {
    PriceDataPoint {
        asset: Symbol::new(asset),
        provider_id: Symbol::new(provider),
        price,
        timestamp: ts,
        confidence_bps: 100,
        status: PriceStatus::Fresh,
    }
}

#[test]
fn pricefeed_test_initialize() {
    let (env, admin) = setup();
    assert_eq!(env.admin, Some(admin));
}

// Oracle management

#[test]
fn test_register_and_get_oracle() {
    let (mut env, admin) = setup();
    let provider = make_provider("oracl1", "Oracle1", 5000);

    let result = PriceFeedContract::register_oracle(&mut env, admin, provider);
    assert_eq!(result, Symbol::new("ok"));

    let retrieved = PriceFeedContract::get_oracle(&env, Symbol::new("oracl1"));
    assert!(retrieved.is_some());
    let p = retrieved.unwrap();
    assert_eq!(p.provider_id, Symbol::new("oracl1"));
    assert_eq!(p.trust_weight, 5000);
    assert!(p.is_active);
}

#[test]
fn test_get_all_oracles() {
    let (mut env, admin) = setup();

    let p1 = make_provider("ora1", "First", 3000);
    let p2 = make_provider("ora2", "Second", 7000);

    PriceFeedContract::register_oracle(&mut env, admin, p1);
    PriceFeedContract::register_oracle(&mut env, admin, p2);

    let all = PriceFeedContract::get_all_oracles(&env);
    assert_eq!(all.len(), 2);
}

#[test]
fn test_remove_oracle() {
    let (mut env, admin) = setup();
    let provider = make_provider("oracl1", "Oracle1", 5000);
    PriceFeedContract::register_oracle(&mut env, admin, provider);

    let result = PriceFeedContract::remove_oracle(&mut env, admin, Symbol::new("oracl1"));
    assert_eq!(result, Symbol::new("ok"));

    let retrieved = PriceFeedContract::get_oracle(&env, Symbol::new("oracl1"));
    assert!(retrieved.is_none());
}

// Price submission & querying

#[test]
fn test_submit_price() {
    let (mut env, admin) = setup();
    let provider = make_provider("oracl1", "Oracle1", 5000);
    PriceFeedContract::register_oracle(&mut env, admin, provider);

    let dp = make_data_point("ETH", "oracl1", 2000_00000000, 1000);
    let result = PriceFeedContract::submit_price(&mut env, dp);
    assert_eq!(result, Symbol::new("ok"));

    let fetched = PriceFeedContract::get_price_from_oracle(
        &env,
        Symbol::new("ETH"),
        Symbol::new("oracl1"),
    );
    assert!(fetched.is_some());
    assert_eq!(fetched.unwrap().price, 2000_00000000);
}

#[test]
fn test_get_price_with_multiple_oracles() {
    let (mut env, admin) = setup();

    // Register oracles with unique IDs
    let p1 = OracleProvider {
        provider_id: Symbol::new("orc1"),
        name: Symbol::new("Oracle1"),
        endpoint: address(&mut env),
        trust_weight: 3333,
        is_active: true,
        max_staleness: 300,
    };
    let p2 = OracleProvider {
        provider_id: Symbol::new("orc2"),
        name: Symbol::new("Oracle2"),
        endpoint: address(&mut env),
        trust_weight: 3333,
        is_active: true,
        max_staleness: 300,
    };
    let p3 = OracleProvider {
        provider_id: Symbol::new("orc3"),
        name: Symbol::new("Oracle3"),
        endpoint: address(&mut env),
        trust_weight: 3334,
        is_active: true,
        max_staleness: 300,
    };

    PriceFeedContract::register_oracle(&mut env, admin, p1);
    PriceFeedContract::register_oracle(&mut env, admin, p2);
    PriceFeedContract::register_oracle(&mut env, admin, p3);

    // Set timestamps to known values
    env.timestamp = 5000;

    // Submit prices from all 3 oracles
    let dp1 = make_data_point("ETH", "orc1", 2000_00000000, 4900);
    let dp2 = make_data_point("ETH", "orc2", 2001_00000000, 4950);
    let dp3 = make_data_point("ETH", "orc3", 1999_00000000, 4980);

    PriceFeedContract::submit_price(&mut env, dp1);
    PriceFeedContract::submit_price(&mut env, dp2);
    PriceFeedContract::submit_price(&mut env, dp3);

    // Get aggregated price (should use median by default)
    let result = PriceFeedContract::get_price(&mut env, Symbol::new("ETH"));
    assert!(result.is_ok());
    let agg = result.unwrap();
    assert_eq!(agg.price, 2000_00000000); // Median of 1999, 2000, 2001
    assert_eq!(agg.num_sources, 3);
}

// Batch operations

#[test]
fn test_batch_submit_and_get() {
    let (mut env, admin) = setup();

    let p1 = OracleProvider {
        provider_id: Symbol::new("orc1"),
        name: Symbol::new("Oracle1"),
        endpoint: address(&mut env),
        trust_weight: 5000,
        is_active: true,
        max_staleness: 300,
    };
    PriceFeedContract::register_oracle(&mut env, admin, p1);

    env.timestamp = 2000;

    // Batch submit
    let batch = vec![
        make_data_point("ETH", "orc1", 2000_00000000, 1900),
        make_data_point("BTC", "orc1", 60000_00000000, 1900),
        make_data_point("USDC", "orc1", 1_00000000, 1900),
    ];
    let result = PriceFeedContract::batch_submit_prices(&mut env, &batch);
    assert_eq!(result, Symbol::new("ok"));

    // Batch get
    let requests = vec![
        BatchPriceRequest {
            asset: Symbol::new("ETH"),
            method_override: None,
        },
        BatchPriceRequest {
            asset: Symbol::new("BTC"),
            method_override: None,
        },
    ];
    let responses = PriceFeedContract::batch_get_prices(&mut env, &requests);
    assert_eq!(responses.len(), 2);
    assert!(responses[0].price.is_some());
    assert!(responses[1].price.is_some());
    assert_eq!(
        responses[0].price.unwrap().price,
        2000_00000000
    );
    assert_eq!(
        responses[1].price.unwrap().price,
        60000_00000000
    );
}

// Fallback

#[test]
fn test_fallback_price() {
    let (mut env, admin) = setup();

    // Set fallback without any oracles
    let result = PriceFeedContract::set_fallback_price(
        &mut env,
        admin,
        Symbol::new("ETH"),
        1500_00000000,
    );
    assert_eq!(result, Symbol::new("ok"));

    let fb = PriceFeedContract::get_fallback_price(&env, Symbol::new("ETH"));
    assert_eq!(fb, Some(1500_00000000));

    // Getting price should use fallback
    let result = PriceFeedContract::get_price(&mut env, Symbol::new("ETH"));
    assert!(result.is_ok());
    let agg = result.unwrap();
    assert_eq!(agg.price, 1500_00000000);
    assert_eq!(agg.status, PriceStatus::Fallback);
}

// Price history

#[test]
fn test_price_history() {
    let (mut env, admin) = setup();

    let p1 = OracleProvider {
        provider_id: Symbol::new("orc1"),
        name: Symbol::new("Oracle1"),
        endpoint: address(&mut env),
        trust_weight: 5000,
        is_active: true,
        max_staleness: 300,
    };
    PriceFeedContract::register_oracle(&mut env, admin, p1);

    // Submit prices at different timestamps
    for ts in 1000..1005 {
        env.timestamp = ts;

        let dp = make_data_point("ETH", "orc1", 2000_00000000 + ts as i128, ts);
        PriceFeedContract::submit_price(&mut env, dp);
        let _ = PriceFeedContract::get_price(&mut env, Symbol::new("ETH"));
    }

    let history = PriceFeedContract::get_price_history(&env, Symbol::new("ETH"));
    assert_eq!(history.len(), 5);
}

// Validation config

#[test]
fn test_set_get_validation_config() {
    let (mut env, admin) = setup();

    let config = PriceValidationConfig {
        max_deviation_bps: 1000, // 10%
        default_ttl_seconds: 600,
        max_history_entries: 50,
        alert_on_anomaly: false,
    };

    let result = PriceFeedContract::set_validation_config(&mut env, admin, config);
    assert_eq!(result, Symbol::new("ok"));

    let retrieved = PriceFeedContract::get_validation_config(&env);
    assert_eq!(retrieved.max_deviation_bps, 1000);
    assert_eq!(retrieved.default_ttl_seconds, 600);
    assert_eq!(retrieved.max_history_entries, 50);
    assert!(!retrieved.alert_on_anomaly);
}

// Cache management

#[test]
fn test_cache_freshness() {
    let (mut env, admin) = setup();

    let p1 = OracleProvider {
        provider_id: Symbol::new("orc1"),
        name: Symbol::new("Oracle1"),
        endpoint: address(&mut env),
        trust_weight: 5000,
        is_active: true,
        max_staleness: 300,
    };
    PriceFeedContract::register_oracle(&mut env, admin, p1);

    env.timestamp = 1000;

    let dp = make_data_point("ETH", "orc1", 2000_00000000, 990);
    PriceFeedContract::submit_price(&mut env, dp);
    let _ = PriceFeedContract::get_price(&mut env, Symbol::new("ETH"));

    // Should be fresh
    assert!(PriceFeedContract::is_price_fresh(&env, Symbol::new("ETH")));

    // Advance time past TTL
    env.timestamp = 1400; // 400 seconds later, default TTL is 300

    assert!(!PriceFeedContract::is_price_fresh(&env, Symbol::new("ETH")));

    // Clear cache
    let result = PriceFeedContract::clear_cache(&mut env, admin, Symbol::new("ETH"));
    assert_eq!(result, Symbol::new("ok"));
    assert!(PriceFeedContract::get_cached_price(&env, Symbol::new("ETH")).is_none());
}

// Staleness check

#[test]
fn test_staleness_check() {
    let (mut env, _admin) = setup();

    env.timestamp = 5000;

    let fresh_dp = make_data_point("ETH", "orc1", 2000_00000000, 4800);
    assert!(!PriceFeedContract::check_staleness(&env, fresh_dp));

    let stale_dp = make_data_point("ETH", "orc1", 2000_00000000, 4000);
    assert!(PriceFeedContract::check_staleness(&env, stale_dp));
}

// Tracked assets

#[test]
fn test_tracked_assets() {
    let (mut env, admin) = setup();

    PriceFeedContract::add_tracked_asset(&mut env, admin, Symbol::new("ETH"));
    PriceFeedContract::add_tracked_asset(&mut env, admin, Symbol::new("BTC"));

    let assets = PriceFeedContract::get_tracked_assets(&env);
    assert_eq!(assets.len(), 2);

    // Adding same asset again should not duplicate
    PriceFeedContract::add_tracked_asset(&mut env, admin, Symbol::new("ETH"));
    let assets = PriceFeedContract::get_tracked_assets(&env);
    assert_eq!(assets.len(), 2);

    // Remove
    PriceFeedContract::remove_tracked_asset(&mut env, admin, Symbol::new("ETH"));
    let assets = PriceFeedContract::get_tracked_assets(&env);
    assert_eq!(assets.len(), 1);
}
