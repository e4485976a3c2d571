//! Aggregation, validation, fallbacks and laws of the price feed.

use astraport::base::address::Address;
use astraport::base::symbol::Symbol;
use astraport::pricefeed::aggregation::{AggregateEngine, TWAP_BASE_WEIGHT};
use astraport::pricefeed::contract::PriceFeedContract;
use astraport::pricefeed::oracle::OracleManager;
use astraport::pricefeed::records::{
    AggregationMethod, BatchPriceRequest, OracleProvider, PriceDataPoint, PriceFeedError,
    PriceStatus, PriceValidationConfig,
};
use astraport::pricefeed::state::{PriceFeedEnv, PriceFeedEvent};
use astraport::pricefeed::validation::{
    calculate_median, is_anomalous, is_measurable, is_resolvable,
};

/// A new address that signs every call.
fn address(env: &mut PriceFeedEnv) -> Address {
    let text = format!("G{:0>55}", env.auths.len() + 1);
    let made = Address::from_text(text.as_bytes());
    env.auths.push(made);
    made
}

fn setup() -> (PriceFeedEnv, Address) {
    let mut env = PriceFeedEnv::new(0);
    let admin = address(&mut env);
    PriceFeedContract::initialize(&mut env, admin);
    (env, admin)
}

fn make_provider(id: &str, name: &str, trust_weight: u32) -> OracleProvider {
    OracleProvider {
        provider_id: Symbol::new(id),
        name: Symbol::new(name),
        endpoint: Address::from_text(format!("C{:0>55}", 1).as_bytes()),
        trust_weight,
        is_active: true,
        max_staleness: 300,
    }
}

fn make_data_point(asset: &str, provider: &str, price: i128, ts: u64) -> PriceDataPoint {
    PriceDataPoint {
        asset: Symbol::new(asset),
        provider_id: Symbol::new(provider),
        price,
        timestamp: ts,
        confidence_bps: 100,
        status: PriceStatus::Fresh,
    }
}

/// Three providers with trust 1, 2 and 7, at time 1 000.
fn three() -> (PriceFeedEnv, Address) {
    let (mut env, admin) = setup();
    env.timestamp = 1_000;
    for (id, trust) in [("o1", 1), ("o2", 2), ("o3", 7)] {
        PriceFeedContract::register_oracle(&mut env, admin, make_provider(id, "Oracle", trust));
    }
    (env, admin)
}

/// Submits one price from each of the three providers.
fn submit(env: &mut PriceFeedEnv, prices: [i128; 3], times: [u64; 3]) {
    for (i, id) in ["o1", "o2", "o3"].iter().enumerate() {
        let point = make_data_point("ETH", id, prices[i], times[i]);
        assert_eq!(PriceFeedContract::submit_price(env, point), Symbol::new("ok"));
    }
}

// Aggregation

#[test]
fn each_method_makes_its_price() {
    let (mut env, _admin) = three();
    submit(&mut env, [1_000, 1_010, 1_020], [990, 999, 998]);
    let eth = Symbol::new("ETH");
    let cases = [
        (AggregationMethod::Median, 1_010),
        (AggregationMethod::Latest, 1_010),
        // (1 000 * 1 + 1 010 * 2 + 1 020 * 7) / 10
        (AggregationMethod::WeightedAverage, 1_016),
    ];
    for (method, expected) in cases {
        let price = PriceFeedContract::get_price_with_method(&mut env, eth, method).unwrap();
        assert_eq!(price.price, expected);
        assert_eq!(price.num_sources, 3);
        assert_eq!(price.status, PriceStatus::Fresh);
        assert_eq!(price.method, method);
        assert_eq!(price.timestamp, 1_000);
    }
    let average =
        PriceFeedContract::get_price_with_method(&mut env, eth, AggregationMethod::TWAP).unwrap();
    let weights = [TWAP_BASE_WEIGHT - 10, TWAP_BASE_WEIGHT - 1, TWAP_BASE_WEIGHT - 2];
    let sum = 1_000 * weights[0] + 1_010 * weights[1] + 1_020 * weights[2];
    assert_eq!(average.price, sum / (weights[0] + weights[1] + weights[2]));
}

#[test]
fn medians_of_even_numbers_lie_half_way() {
    let points = |prices: &[i128]| -> Vec<PriceDataPoint> {
        prices.iter().map(|p| make_data_point("ETH", "o1", *p, 0)).collect()
    };
    assert_eq!(calculate_median(&points(&[])), None);
    assert_eq!(calculate_median(&points(&[5])), Some(5));
    assert_eq!(calculate_median(&points(&[9, 2])), Some(5));
    assert_eq!(calculate_median(&points(&[-9, -2])), Some(-5));
    assert_eq!(calculate_median(&points(&[4, 1, 3, 2])), Some(2));
    assert_eq!(
        calculate_median(&points(&[i128::MAX, i128::MAX])),
        Some(i128::MAX)
    );
    assert_eq!(calculate_median(&points(&[7, i128::MIN, 7])), Some(7));
}

#[test]
fn the_worst_status_counts() {
    let (env, _admin) = three();
    let mut points = vec![
        make_data_point("ETH", "o1", 5, 1),
        make_data_point("ETH", "o2", 5, 2),
        make_data_point("ETH", "o3", 5, 3),
    ];
    let aggregate =
        |points: &Vec<PriceDataPoint>| AggregateEngine::aggregate(&env, points, AggregationMethod::Median);
    assert_eq!(aggregate(&points).status, PriceStatus::Fresh);
    points[1].status = PriceStatus::Stale;
    assert_eq!(aggregate(&points).status, PriceStatus::Stale);
    points[0].status = PriceStatus::Anomalous;
    assert_eq!(aggregate(&points).status, PriceStatus::Anomalous);
    let nothing = aggregate(&Vec::new());
    assert_eq!((nothing.price, nothing.status), (0, PriceStatus::Unknown));
}

// Validation

#[test]
fn anomalous_prices_are_left_out_and_told() {
    let (mut env, _admin) = three();
    submit(&mut env, [1_000, 1_004, 2_000], [999, 999, 999]);
    let price = PriceFeedContract::get_price(&mut env, Symbol::new("ETH")).unwrap();
    assert_eq!(price.price, 1_002);
    assert_eq!(price.num_sources, 2);
    assert!(env.events.contains(&PriceFeedEvent::AnomalyDetected {
        asset: Symbol::new("ETH"),
        provider_id: Symbol::new("o3"),
        price: 2_000,
    }));
    assert!(PriceFeedContract::check_anomaly(&env, 2_000, Symbol::new("ETH")));
    assert!(!PriceFeedContract::check_anomaly(&env, 1_004, Symbol::new("ETH")));
}

#[test]
fn deviations_are_counted_in_basis_points() {
    assert!(!is_anomalous(1_050, 1_000, 500));
    assert!(is_anomalous(1_051, 1_000, 500));
    assert!(is_anomalous(949, 1_000, 500));
    assert!(is_anomalous(1, 0, 500));
    assert!(!is_anomalous(0, 0, 500));
}

#[test]
fn old_prices_do_not_count() {
    let (mut env, _admin) = three();
    submit(&mut env, [1_000, 1_010, 1_020], [699, 700, 950]);
    let price = PriceFeedContract::get_price(&mut env, Symbol::new("ETH")).unwrap();
    assert_eq!(price.num_sources, 2);
    assert_eq!(price.price, 1_015);
    env.timestamp = 2_000;
    assert_eq!(
        PriceFeedContract::get_price(&mut env, Symbol::new("ETH")),
        Err(PriceFeedError::NoPriceData)
    );
}

// Fallbacks

#[test]
fn fallbacks_step_in_where_nothing_counts() {
    let (mut env, admin) = three();
    let eth = Symbol::new("ETH");
    PriceFeedContract::set_fallback_price(&mut env, admin, eth, 77);
    let price = PriceFeedContract::get_price(&mut env, eth).unwrap();
    assert_eq!((price.price, price.status, price.num_sources), (77, PriceStatus::Fallback, 0));
    submit(&mut env, [1_000, 1_000, 1_000], [999, 999, 999]);
    let price = PriceFeedContract::get_price(&mut env, eth).unwrap();
    assert_eq!((price.price, price.status), (1_000, PriceStatus::Fresh));
}

// Providers

#[test]
fn providers_come_and_go() {
    let (mut env, admin) = three();
    let again = make_provider("o1", "Twice", 9);
    assert_eq!(
        PriceFeedContract::register_oracle(&mut env, admin, again),
        Symbol::new("err")
    );
    assert_eq!(
        OracleManager::register_provider(&mut env, again),
        Err(PriceFeedError::OracleAlreadyExists)
    );
    assert_eq!(PriceFeedContract::update_oracle(&mut env, admin, again), Symbol::new("ok"));
    assert_eq!(PriceFeedContract::get_oracle(&env, Symbol::new("o1")), Some(again));
    let idle = OracleProvider { is_active: false, ..again };
    PriceFeedContract::update_oracle(&mut env, admin, idle);
    assert_eq!(PriceFeedContract::get_active_oracles(&env).len(), 2);
    assert_eq!(
        OracleManager::check_submission(&env, Symbol::new("o1")),
        Some(PriceFeedError::OracleInactive)
    );
    PriceFeedContract::remove_oracle(&mut env, admin, Symbol::new("o1"));
    assert_eq!(
        OracleManager::check_submission(&env, Symbol::new("o1")),
        Some(PriceFeedError::OracleNotFound)
    );
    assert_eq!(
        PriceFeedContract::remove_oracle(&mut env, admin, Symbol::new("o1")),
        Symbol::new("err")
    );
    assert_eq!(PriceFeedContract::get_all_oracles(&env).len(), 2);
}

#[test]
fn the_last_submission_counts_and_refused_ones_do_not() {
    let (mut env, _admin) = three();
    let eth = Symbol::new("ETH");
    submit(&mut env, [1, 2, 3], [990, 990, 990]);
    submit(&mut env, [4, 5, 6], [995, 995, 995]);
    let stored =
        PriceFeedContract::get_price_from_oracle(&env, eth, Symbol::new("o2")).unwrap();
    assert_eq!(stored.price, 5);
    let stray = make_data_point("ETH", "nobody", 9, 999);
    assert_eq!(PriceFeedContract::submit_price(&mut env, stray), Symbol::new("err"));
    assert!(PriceFeedContract::get_price_from_oracle(&env, eth, Symbol::new("nobody")).is_none());
    let batch = vec![stray, make_data_point("BTC", "o1", 8, 999)];
    PriceFeedContract::batch_submit_prices(&mut env, &batch);
    assert_eq!(env.events.last(), Some(&PriceFeedEvent::BatchSubmitted { count: 1 }));
}

// Cache and history

#[test]
fn given_prices_are_kept_up_to_the_limit() {
    let (mut env, admin) = three();
    let eth = Symbol::new("ETH");
    PriceFeedContract::set_validation_config(
        &mut env,
        admin,
        PriceValidationConfig {
            max_deviation_bps: 500,
            default_ttl_seconds: 300,
            max_history_entries: 3,
            alert_on_anomaly: true,
        },
    );
    for i in 0..5 {
        submit(&mut env, [100 + i, 100 + i, 100 + i], [999, 999, 999]);
        let price = PriceFeedContract::get_price(&mut env, eth).unwrap();
        let cached = PriceFeedContract::get_cached_price(&env, eth).unwrap();
        assert_eq!(cached.aggregated, price);
        assert!(PriceFeedContract::is_price_fresh(&env, eth));
    }
    let history = PriceFeedContract::get_price_history(&env, eth);
    let prices: Vec<i128> = history.iter().map(|h| h.price).collect();
    assert_eq!(prices, vec![102, 103, 104]);
    assert_eq!(PriceFeedContract::get_price_history_length(&env, eth), 3);
    assert_eq!(PriceFeedContract::get_price_history_length(&env, Symbol::new("BTC")), 0);
}

#[test]
fn batches_answer_each_request() {
    let (mut env, admin) = three();
    submit(&mut env, [1_000, 1_010, 1_020], [990, 999, 998]);
    PriceFeedContract::set_default_aggregation_method(&mut env, admin, AggregationMethod::Latest);
    assert_eq!(
        PriceFeedContract::get_default_aggregation_method(&env),
        AggregationMethod::Latest
    );
    let requests = vec![
        BatchPriceRequest { asset: Symbol::new("ETH"), method_override: None },
        BatchPriceRequest {
            asset: Symbol::new("ETH"),
            method_override: Some(AggregationMethod::WeightedAverage),
        },
        BatchPriceRequest { asset: Symbol::new("BTC"), method_override: None },
    ];
    let responses = PriceFeedContract::batch_get_prices(&mut env, &requests);
    assert_eq!(responses[0].price.unwrap().price, 1_010);
    assert_eq!(responses[1].price.unwrap().price, 1_016);
    assert!(responses[2].price.is_none());
    assert!(!responses[2].found);
}

#[test]
fn only_averages_need_room_for_weights() {
    let (mut env, _admin) = three();
    let big = i128::MAX / 20_000;
    submit(&mut env, [big, big, big], [990, 990, 990]);
    let asset = Symbol::new("ETH");
    for (method, fits) in [
        (AggregationMethod::Median, true),
        (AggregationMethod::Latest, true),
        (AggregationMethod::TWAP, false),
        (AggregationMethod::WeightedAverage, true),
    ] {
        assert_eq!(is_resolvable(&env, asset, method), fits);
    }
    let price =
        PriceFeedContract::get_price_with_method(&mut env, asset, AggregationMethod::Median);
    assert_eq!(price.unwrap().price, big);
    assert!(is_resolvable(&env, Symbol::new("NONE"), AggregationMethod::TWAP));
}

#[test]
fn deviations_need_room_for_basis_points() {
    assert!(is_measurable(i128::MAX / 10_000, 0));
    assert!(!is_measurable(i128::MAX / 10_000 + 1, 0));
    assert!(!is_measurable(i128::MIN, i128::MIN));
    assert!(!is_measurable(i128::MAX, -1));
}

#[test]
fn outdated_prices_have_no_weight() {
    let env = PriceFeedEnv::new(2_000_000);
    let points = vec![
        make_data_point("ETH", "o1", 100, 2_000_000),
        make_data_point("ETH", "o2", 102, 2_000_000),
        make_data_point("ETH", "o3", 9_000, 1_000_000),
    ];
    let price = AggregateEngine::aggregate(&env, &points, AggregationMethod::TWAP);
    assert_eq!(price.price, 101);
}
