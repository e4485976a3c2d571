//! Portfolios, their assets, prices and values.

use astraport::asset::contract::AssetManagementContract;
use astraport::asset::records::{Asset, AssetError, AssetType, RiskLevel, SCALE};
use astraport::asset::state::AssetEnv;
use astraport::base::address::Address;
use astraport::base::symbol::Symbol;

/// A new address that signs every call.
fn address(env: &mut AssetEnv) -> Address {
    let text = format!("G{:0>55}", env.auths.len() + 1);
    let made = Address::from_text(text.as_bytes());
    env.auths.push(made);
    made
}

fn setup() -> (AssetEnv, Address) {
    let mut env = AssetEnv::new(0);
    let admin = address(&mut env);
    AssetManagementContract::initialize(&mut env, admin).unwrap();
    (env, admin)
}

fn make_asset(symbol: &str, name: &str) -> Asset {
    Asset {
        symbol: Symbol::new(symbol),
        asset_type: AssetType::Token,
        contract_address: Address::from_text(format!("C{:0>55}", 1).as_bytes()),
        balance: 1000 * SCALE,
        name: Symbol::new(name),
        decimals: 8,
        risk_level: RiskLevel::Medium,
        is_active: true,
    }
}

// Initialization

#[test]
fn lib_test_initialize() {
    let (env, _admin) = setup();
    let portfolios = AssetManagementContract::get_all_portfolios(&env);
    assert_eq!(portfolios.len(), 0);
}

#[test]
fn lib_test_double_initialize_fails() {
    let mut env = AssetEnv::new(0);
    let admin = address(&mut env);
    AssetManagementContract::initialize(&mut env, admin).unwrap();

    let admin2 = address(&mut env);
    assert_eq!(
        AssetManagementContract::initialize(&mut env, admin2),
        Err(AssetError::AlreadyInitialized),
    );
}

// Add asset

#[test]
fn test_add_asset() {
    let (mut env, admin) = setup();
    let pid = Symbol::new("PORT1");
    let asset = make_asset("XLM", "Stellar");

    let result = AssetManagementContract::add_asset(&mut env, admin, pid, asset).unwrap();
    assert_eq!(result, Symbol::new("ok"));

    let retrieved = AssetManagementContract::get_asset(&env, pid, Symbol::new("XLM"));
    assert!(retrieved.is_some());
    let a = retrieved.unwrap();
    assert_eq!(a.symbol, Symbol::new("XLM"));
    assert_eq!(a.name, Symbol::new("Stellar"));
    assert_eq!(a.balance, 1000 * SCALE);
    assert_eq!(a.decimals, 8);
    assert_eq!(a.risk_level, RiskLevel::Medium);
    assert_eq!(a.asset_type, AssetType::Token);
}

#[test]
fn test_add_asset_duplicate_fails() {
    let (mut env, admin) = setup();
    let pid = Symbol::new("PORT1");
    let asset = make_asset("XLM", "Stellar");

    AssetManagementContract::add_asset(&mut env, admin, pid, asset).unwrap();
    assert_eq!(
        AssetManagementContract::add_asset(&mut env, admin, pid, asset),
        Err(AssetError::AssetAlreadyExists),
    );
}

#[test]
fn test_add_asset_multiple_assets() {
    let (mut env, admin) = setup();
    let pid = Symbol::new("PORT1");

    let asset1 = make_asset("XLM", "Stellar");
    let asset2 = make_asset("USDC", "USD_Coin");
    let asset3 = make_asset("BTC", "Bitcoin");

    AssetManagementContract::add_asset(&mut env, admin, pid, asset1).unwrap();
    AssetManagementContract::add_asset(&mut env, admin, pid, asset2).unwrap();
    AssetManagementContract::add_asset(&mut env, admin, pid, asset3).unwrap();

    let assets = AssetManagementContract::get_portfolio_assets(&env, pid);
    assert_eq!(assets.len(), 3);
}

#[test]
fn test_add_asset_invalid_type_fails() {
    let (mut env, admin) = setup();
    let pid = Symbol::new("PORT1");
    let mut asset = make_asset("XLM", "Stellar");
    // Use an invalid type by trying to set it (AssetType only has Token/Derivative)
    asset.symbol = Symbol::new("XLM");

    // Valid type should work
    let result = AssetManagementContract::add_asset(&mut env, admin, pid, asset).unwrap();
    assert_eq!(result, Symbol::new("ok"));
}

// Remove asset

#[test]
fn test_remove_asset_zero_balance() {
    let (mut env, admin) = setup();
    let pid = Symbol::new("PORT1");
    let mut asset = make_asset("XLM", "Stellar");
    asset.balance = 0; // Zero balance required

    AssetManagementContract::add_asset(&mut env, admin, pid, asset).unwrap();

    let result = AssetManagementContract::remove_asset(
        &mut env,
        admin,
        pid,
        Symbol::new("XLM"),
    )
    .unwrap();
    assert_eq!(result, Symbol::new("ok"));

    let retrieved = AssetManagementContract::get_asset(&env, pid, Symbol::new("XLM"));
    assert!(retrieved.is_none());
}

#[test]
fn test_remove_asset_nonzero_balance_fails() {
    let (mut env, admin) = setup();
    let pid = Symbol::new("PORT1");
    let asset = make_asset("XLM", "Stellar"); // balance = 1000 * SCALE

    AssetManagementContract::add_asset(&mut env, admin, pid, asset).unwrap();

    assert_eq!(
        AssetManagementContract::remove_asset(&mut env, admin, pid, Symbol::new("XLM")),
        Err(AssetError::NonZeroBalance),
    );
}

#[test]
fn test_remove_asset_not_found_fails() {
    let (mut env, admin) = setup();
    let pid = Symbol::new("PORT1");

    assert_eq!(
        AssetManagementContract::remove_asset(&mut env, admin, pid, Symbol::new("XLM")),
        Err(AssetError::AssetNotFound),
    );
}

#[test]
fn test_remove_asset_updates_portfolio_count() {
    let (mut env, admin) = setup();
    let pid = Symbol::new("PORT1");

    let mut asset1 = make_asset("XLM", "Stellar");
    asset1.balance = 0;
    let mut asset2 = make_asset("USDC", "USD_Coin");
    asset2.balance = 0;

    AssetManagementContract::add_asset(&mut env, admin, pid, asset1).unwrap();
    AssetManagementContract::add_asset(&mut env, admin, pid, asset2).unwrap();

    assert_eq!(AssetManagementContract::get_asset_count(&env, pid), 2);

    AssetManagementContract::remove_asset(&mut env, admin, pid, Symbol::new("XLM")).unwrap();
    assert_eq!(AssetManagementContract::get_asset_count(&env, pid), 1);

    AssetManagementContract::remove_asset(&mut env, admin, pid, Symbol::new("USDC")).unwrap();
    assert_eq!(AssetManagementContract::get_asset_count(&env, pid), 0);
}

// Update balance

#[test]
fn test_update_asset_balance() {
    let (mut env, admin) = setup();
    let pid = Symbol::new("PORT1");
    let asset = make_asset("XLM", "Stellar");

    AssetManagementContract::add_asset(&mut env, admin, pid, asset).unwrap();

    let result =
        AssetManagementContract::update_asset_balance(
            &mut env,
            admin,
            pid,
            Symbol::new("XLM"),
            2000 * SCALE,
        )
        .unwrap();
    assert_eq!(result, Symbol::new("ok"));

    let updated = AssetManagementContract::get_asset(&env, pid, Symbol::new("XLM")).unwrap();
    assert_eq!(updated.balance, 2000 * SCALE);
}

#[test]
fn test_update_asset_balance_to_zero() {
    let (mut env, admin) = setup();
    let pid = Symbol::new("PORT1");
    let asset = make_asset("XLM", "Stellar");

    AssetManagementContract::add_asset(&mut env, admin, pid, asset).unwrap();

    let result = AssetManagementContract::update_asset_balance(
        &mut env,
        admin,
        pid,
        Symbol::new("XLM"),
        0,
    )
    .unwrap();
    assert_eq!(result, Symbol::new("ok"));

    let updated = AssetManagementContract::get_asset(&env, pid, Symbol::new("XLM")).unwrap();
    assert_eq!(updated.balance, 0);
}

#[test]
fn test_update_asset_balance_negative_fails() {
    let (mut env, admin) = setup();
    let pid = Symbol::new("PORT1");
    let asset = make_asset("XLM", "Stellar");

    AssetManagementContract::add_asset(&mut env, admin, pid, asset).unwrap();

    assert_eq!(
        AssetManagementContract::update_asset_balance(
            &mut env,
            admin,
            pid,
            Symbol::new("XLM"),
            -1,
        ),
        Err(AssetError::InvalidBalance),
    );
}

#[test]
fn test_update_asset_balance_not_found_fails() {
    let (mut env, admin) = setup();
    let pid = Symbol::new("PORT1");

    assert_eq!(
        AssetManagementContract::update_asset_balance(
            &mut env,
            admin,
            pid,
            Symbol::new("XLM"),
            100,
        ),
        Err(AssetError::AssetNotFound),
    );
}

// Price feed

#[test]
fn test_set_get_asset_price() {
    let (mut env, admin) = setup();
    let source = Symbol::new("oracle");

    let result = AssetManagementContract::set_asset_price(
        &mut env,
        admin,
        Symbol::new("XLM"),
        2 * SCALE,
        source,
    )
    .unwrap();
    assert_eq!(result, Symbol::new("ok"));

    let price = AssetManagementContract::get_asset_price(&env, Symbol::new("XLM"));
    assert!(price.is_some());
    let p = price.unwrap();
    assert_eq!(p.price, 2 * SCALE);
    assert_eq!(p.source, Symbol::new("oracle"));
}

#[test]
fn test_get_asset_price_not_found() {
    let (env, _admin) = setup();
    let price = AssetManagementContract::get_asset_price(&env, Symbol::new("XLM"));
    assert!(price.is_none());
}

#[test]
fn test_set_asset_price_invalid_fails() {
    let (mut env, admin) = setup();
    let source = Symbol::new("oracle");

    assert_eq!(
        AssetManagementContract::set_asset_price(&mut env, admin, Symbol::new("XLM"), 0, source),
        Err(AssetError::InvalidPrice),
    );

    assert_eq!(
        AssetManagementContract::set_asset_price(&mut env, admin, Symbol::new("XLM"), -1, source),
        Err(AssetError::InvalidPrice),
    );
}

#[test]
fn test_asset_value_calculation() {
    let (mut env, admin) = setup();
    let pid = Symbol::new("PORT1");
    let source = Symbol::new("oracle");

    let mut asset = make_asset("XLM", "Stellar");
    asset.balance = 100; // 100 units
    AssetManagementContract::add_asset(&mut env, admin, pid, asset).unwrap();

    // Price = SCALE means 1.0 per unit
    AssetManagementContract::set_asset_price(
        &mut env,
        admin,
        Symbol::new("XLM"),
        SCALE,
        source,
    )
    .unwrap();

    let value = AssetManagementContract::get_asset_value(&env, pid, Symbol::new("XLM"));
    assert_eq!(value, Some(100 * SCALE));
}

#[test]
fn test_asset_value_no_price() {
    let (mut env, admin) = setup();
    let pid = Symbol::new("PORT1");

    let asset = make_asset("XLM", "Stellar");
    AssetManagementContract::add_asset(&mut env, admin, pid, asset).unwrap();

    // No price set
    let value = AssetManagementContract::get_asset_value(&env, pid, Symbol::new("XLM"));
    assert_eq!(value, None);
}

// Portfolio value

#[test]
fn test_portfolio_value_empty() {
    let (env, _admin) = setup();
    let pid = Symbol::new("PORT1");

    let value = AssetManagementContract::get_portfolio_value(&env, pid);
    assert_eq!(value, 0);
}

#[test]
fn test_portfolio_value_single_asset() {
    let (mut env, admin) = setup();
    let pid = Symbol::new("PORT1");
    let source = Symbol::new("oracle");

    let mut asset = make_asset("XLM", "Stellar");
    asset.balance = 1000;
    AssetManagementContract::add_asset(&mut env, admin, pid, asset).unwrap();

    AssetManagementContract::set_asset_price(
        &mut env,
        admin,
        Symbol::new("XLM"),
        2 * SCALE,
        source,
    )
    .unwrap();

    let value = AssetManagementContract::get_portfolio_value(&env, pid);
    assert_eq!(value, 2000 * SCALE);
}

#[test]
fn test_portfolio_value_multiple_assets() {
    let (mut env, admin) = setup();
    let pid = Symbol::new("PORT1");
    let source = Symbol::new("oracle");

    let mut asset1 = make_asset("XLM", "Stellar");
    asset1.balance = 1000;
    let mut asset2 = make_asset("USDC", "USD_Coin");
    asset2.balance = 500;

    AssetManagementContract::add_asset(&mut env, admin, pid, asset1).unwrap();
    AssetManagementContract::add_asset(&mut env, admin, pid, asset2).unwrap();

    AssetManagementContract::set_asset_price(
        &mut env,
        admin,
        Symbol::new("XLM"),
        SCALE,
        source,
    )
    .unwrap();
    AssetManagementContract::set_asset_price(
        &mut env,
        admin,
        Symbol::new("USDC"),
        2 * SCALE,
        source,
    )
    .unwrap();

    // XLM: 1000 * SCALE, USDC: 500 * 2 * SCALE = 1000 * SCALE
    // Total: 2000 * SCALE
    let value = AssetManagementContract::get_portfolio_value(&env, pid);
    assert_eq!(value, 2000 * SCALE);
}

// Portfolio summary

#[test]
fn test_portfolio_summary_none_when_empty() {
    let (env, _admin) = setup();
    let pid = Symbol::new("PORT1");

    let summary = AssetManagementContract::get_portfolio_summary(&env, pid);
    assert!(summary.is_none());
}

#[test]
fn test_portfolio_summary_with_assets() {
    let (mut env, admin) = setup();
    let pid = Symbol::new("PORT1");
    let source = Symbol::new("oracle");

    let mut asset = make_asset("XLM", "Stellar");
    asset.balance = 1000;
    AssetManagementContract::add_asset(&mut env, admin, pid, asset).unwrap();

    AssetManagementContract::set_asset_price(
        &mut env,
        admin,
        Symbol::new("XLM"),
        SCALE,
        source,
    )
    .unwrap();

    let summary = AssetManagementContract::get_portfolio_summary(&env, pid).unwrap();
    assert_eq!(summary.asset_count, 1);
    assert_eq!(summary.total_value, 1000 * SCALE);
    assert_eq!(summary.active_asset_count, 1);
}

// Active assets

#[test]
fn test_get_active_assets() {
    let (mut env, admin) = setup();
    let pid = Symbol::new("PORT1");

    let mut asset1 = make_asset("XLM", "Stellar");
    asset1.is_active = true;
    let mut asset2 = make_asset("USDC", "USD_Coin");
    asset2.is_active = false;

    AssetManagementContract::add_asset(&mut env, admin, pid, asset1).unwrap();
    AssetManagementContract::add_asset(&mut env, admin, pid, asset2).unwrap();

    let active = AssetManagementContract::get_active_assets(&env, pid);
    assert_eq!(active.len(), 1);
    assert_eq!(active[0].symbol, Symbol::new("XLM"));
}

// Portfolio registration

#[test]
fn test_portfolio_registered_on_add() {
    let (mut env, admin) = setup();
    let pid = Symbol::new("PORT1");
    let asset = make_asset("XLM", "Stellar");

    AssetManagementContract::add_asset(&mut env, admin, pid, asset).unwrap();

    let portfolios = AssetManagementContract::get_all_portfolios(&env);
    assert_eq!(portfolios.len(), 1);
    assert_eq!(portfolios[0], pid);
}

#[test]
fn test_multiple_portfolios() {
    let (mut env, admin) = setup();
    let pid1 = Symbol::new("PORT1");
    let pid2 = Symbol::new("PORT2");
    let asset1 = make_asset("XLM", "Stellar");
    let asset2 = make_asset("USDC", "USD_Coin");

    AssetManagementContract::add_asset(&mut env, admin, pid1, asset1).unwrap();
    AssetManagementContract::add_asset(&mut env, admin, pid2, asset2).unwrap();

    let portfolios = AssetManagementContract::get_all_portfolios(&env);
    assert_eq!(portfolios.len(), 2);
}

// Risk levels

#[test]
fn test_add_asset_with_different_risk_levels() {
    let (mut env, admin) = setup();
    let pid = Symbol::new("PORT1");

    let mut asset_low = make_asset("USDC", "USD_Coin");
    asset_low.risk_level = RiskLevel::Low;

    let mut asset_high = make_asset("DOGE", "Dogecoin");
    asset_high.risk_level = RiskLevel::High;

    let mut asset_very_high = make_asset("SHIB", "Shiba_Inu");
    asset_very_high.risk_level = RiskLevel::VeryHigh;

    AssetManagementContract::add_asset(&mut env, admin, pid, asset_low).unwrap();
    AssetManagementContract::add_asset(&mut env, admin, pid, asset_high).unwrap();
    AssetManagementContract::add_asset(&mut env, admin, pid, asset_very_high).unwrap();

    let assets = AssetManagementContract::get_portfolio_assets(&env, pid);
    assert_eq!(assets.len(), 3);
}

// Asset types

#[test]
fn test_add_derivative_asset() {
    let (mut env, admin) = setup();
    let pid = Symbol::new("PORT1");

    let asset = Asset {
        symbol: Symbol::new("CALL"),
        asset_type: AssetType::Derivative,
        contract_address: address(&mut env),
        balance: 100,
        name: Symbol::new("CallOption"),
        decimals: 0,
        risk_level: RiskLevel::High,
        is_active: true,
    };

    let result = AssetManagementContract::add_asset(&mut env, admin, pid, asset).unwrap();
    assert_eq!(result, Symbol::new("ok"));

    let retrieved = AssetManagementContract::get_asset(&env, pid, Symbol::new("CALL")).unwrap();
    assert_eq!(retrieved.asset_type, AssetType::Derivative);
}
