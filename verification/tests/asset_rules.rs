//! Refusals, limits and laws of asset management.

use astraport::asset::contract::AssetManagementContract;
use astraport::asset::records::{Asset, AssetError, AssetType, RiskLevel, SCALE};
use astraport::asset::state::AssetEnv;
use astraport::base::address::Address;
use astraport::base::symbol::Symbol;

/// A new address that signs every call.
fn address(env: &mut AssetEnv) -> Address {
    let text = format!("G{:0>55}", env.auths.len() + 1);
    let made = Address::from_text(text.as_bytes());
    env.auths.push(made);
    made
}

fn setup() -> (AssetEnv, Address) {
    let mut env = AssetEnv::new(0);
    let admin = address(&mut env);
    AssetManagementContract::initialize(&mut env, admin).unwrap();
    (env, admin)
}

fn make_asset(symbol: &str, name: &str) -> Asset {
    Asset {
        symbol: Symbol::new(symbol),
        asset_type: AssetType::Token,
        contract_address: Address::from_text(format!("C{:0>55}", 1).as_bytes()),
        balance: 1000 * SCALE,
        name: Symbol::new(name),
        decimals: 8,
        risk_level: RiskLevel::Medium,
        is_active: true,
    }
}

#[test]
fn assets_are_checked_when_added() {
    let (mut env, admin) = setup();
    let pid = Symbol::new("P");
    let good = make_asset("XLM", "Stellar");
    let cases = [
        (Asset { symbol: Symbol::empty(), ..good }, AssetError::InvalidSymbol),
        (Asset { name: Symbol::empty(), ..good }, AssetError::InvalidName),
        (Asset { decimals: 19, ..good }, AssetError::InvalidDecimals),
        (Asset { balance: -1, ..good }, AssetError::InvalidBalance),
    ];
    for (asset, error) in cases {
        assert_eq!(AssetManagementContract::add_asset(&mut env, admin, pid, asset), Err(error));
    }
    let widest = Asset { decimals: 18, ..good };
    assert!(AssetManagementContract::add_asset(&mut env, admin, pid, widest).is_ok());
}

#[test]
fn only_the_administrator_changes_assets() {
    let (mut env, _admin) = setup();
    let other = address(&mut env);
    let pid = Symbol::new("P");
    let xlm = Symbol::new("XLM");
    let refused = Err(AssetError::Unauthorized);
    let asset = make_asset("XLM", "Stellar");
    assert_eq!(AssetManagementContract::add_asset(&mut env, other, pid, asset), refused);
    assert_eq!(AssetManagementContract::remove_asset(&mut env, other, pid, xlm), refused);
    assert_eq!(
        AssetManagementContract::update_asset_balance(&mut env, other, pid, xlm, 1),
        refused
    );
    assert_eq!(
        AssetManagementContract::set_asset_price(&mut env, other, xlm, 1, Symbol::new("me")),
        refused
    );
}

#[test]
fn removing_undoes_adding_in_order() {
    let (mut env, admin) = setup();
    let pid = Symbol::new("P");
    let names = ["A1", "A2", "A3"];
    for name in names {
        let asset = Asset { balance: 0, ..make_asset(name, "Name") };
        AssetManagementContract::add_asset(&mut env, admin, pid, asset).unwrap();
    }
    AssetManagementContract::remove_asset(&mut env, admin, pid, Symbol::new("A2")).unwrap();
    let left: Vec<Symbol> = AssetManagementContract::get_portfolio_assets(&env, pid)
        .iter()
        .map(|a| a.symbol)
        .collect();
    assert_eq!(left, vec![Symbol::new("A1"), Symbol::new("A3")]);
    assert!(AssetManagementContract::get_asset(&env, pid, Symbol::new("A2")).is_none());
    let again = Asset { balance: 0, ..make_asset("A2", "Name") };
    AssetManagementContract::add_asset(&mut env, admin, pid, again).unwrap();
    assert_eq!(AssetManagementContract::get_asset_count(&env, pid), 3);
}

#[test]
fn a_portfolio_takes_sixty_four_assets() {
    let (mut env, admin) = setup();
    let pid = Symbol::new("P");
    for i in 0..64 {
        let asset = make_asset(&format!("A{}", i), "Name");
        AssetManagementContract::add_asset(&mut env, admin, pid, asset).unwrap();
    }
    assert_eq!(
        AssetManagementContract::add_asset(&mut env, admin, pid, make_asset("ONE", "More")),
        Err(AssetError::MaxAssetsReached)
    );
    let elsewhere = Symbol::new("Q");
    assert!(AssetManagementContract::add_asset(
        &mut env,
        admin,
        elsewhere,
        make_asset("ONE", "More")
    )
    .is_ok());
}

#[test]
fn metadata_leaves_the_balance() {
    let (mut env, admin) = setup();
    let pid = Symbol::new("P");
    let xlm = Symbol::new("XLM");
    AssetManagementContract::add_asset(&mut env, admin, pid, make_asset("XLM", "Stellar")).unwrap();
    AssetManagementContract::update_asset_metadata(
        &mut env,
        admin,
        pid,
        xlm,
        Symbol::new("Lumen"),
        7,
        RiskLevel::Low,
        AssetType::Derivative,
    )
    .unwrap();
    let changed = AssetManagementContract::get_asset(&env, pid, xlm).unwrap();
    assert_eq!(
        changed,
        Asset {
            name: Symbol::new("Lumen"),
            decimals: 7,
            risk_level: RiskLevel::Low,
            asset_type: AssetType::Derivative,
            ..make_asset("XLM", "Stellar")
        }
    );
    assert_eq!(
        AssetManagementContract::update_asset_metadata(
            &mut env,
            admin,
            pid,
            Symbol::new("BTC"),
            Symbol::new("Bitcoin"),
            7,
            RiskLevel::Low,
            AssetType::Token,
        ),
        Err(AssetError::AssetNotFound)
    );
}

#[test]
fn a_price_counts_in_every_portfolio() {
    let (mut env, admin) = setup();
    env.timestamp = 55;
    let xlm = Symbol::new("XLM");
    for (name, balance) in [("P", 3), ("Q", 5)] {
        let asset = Asset { balance, ..make_asset("XLM", "Stellar") };
        AssetManagementContract::add_asset(&mut env, admin, Symbol::new(name), asset).unwrap();
    }
    let idle = Asset { balance: 9, is_active: false, ..make_asset("USDC", "Dollar") };
    AssetManagementContract::add_asset(&mut env, admin, Symbol::new("Q"), idle).unwrap();
    AssetManagementContract::set_asset_price(&mut env, admin, xlm, 2 * SCALE, Symbol::new("o"))
        .unwrap();
    let price = AssetManagementContract::get_asset_price(&env, xlm).unwrap();
    assert_eq!((price.price, price.updated_at), (2 * SCALE, 55));
    assert_eq!(AssetManagementContract::get_portfolio_value(&env, Symbol::new("P")), 6 * SCALE);
    assert_eq!(AssetManagementContract::get_portfolio_value(&env, Symbol::new("Q")), 10 * SCALE);
    let summary =
        AssetManagementContract::get_portfolio_summary(&env, Symbol::new("Q")).unwrap();
    assert_eq!((summary.asset_count, summary.active_asset_count), (2, 1));
}

#[test]
fn fields_are_validated_one_by_one() {
    let empty = Symbol::new("");
    let name = Symbol::new("XLM");
    assert_eq!(AssetManagementContract::validate_symbol(&empty), Err(AssetError::InvalidSymbol));
    assert_eq!(AssetManagementContract::validate_symbol(&name), Ok(()));
    assert_eq!(AssetManagementContract::validate_name(&empty), Err(AssetError::InvalidName));
    assert_eq!(AssetManagementContract::validate_name(&name), Ok(()));
    assert_eq!(AssetManagementContract::validate_asset_type(&AssetType::Token), Ok(()));
    assert_eq!(AssetManagementContract::validate_decimals(18), Ok(()));
    assert_eq!(
        AssetManagementContract::validate_decimals(19),
        Err(AssetError::InvalidDecimals)
    );
    assert_eq!(AssetManagementContract::validate_balance(0), Ok(()));
    assert_eq!(AssetManagementContract::validate_balance(-1), Err(AssetError::InvalidBalance));
    assert_eq!(AssetManagementContract::validate_price(1), Ok(()));
    assert_eq!(AssetManagementContract::validate_price(0), Err(AssetError::InvalidPrice));
}

#[test]
fn a_portfolio_that_had_an_asset_has_a_summary() {
    let (mut env, admin) = setup();
    let pid = Symbol::new("P");
    assert!(AssetManagementContract::get_portfolio_summary(&env, pid).is_none());
    let asset = Asset { balance: 0, ..make_asset("XLM", "Stellar") };
    AssetManagementContract::add_asset(&mut env, admin, pid, asset).unwrap();
    AssetManagementContract::remove_asset(&mut env, admin, pid, asset.symbol).unwrap();
    let summary = AssetManagementContract::get_portfolio_summary(&env, pid).unwrap();
    assert_eq!((summary.asset_count, summary.active_asset_count), (0, 0));
    assert_eq!(summary.total_value, 0);
    assert_eq!(AssetManagementContract::get_all_portfolios(&env), vec![pid]);
    assert!(AssetManagementContract::get_portfolio_summary(&env, Symbol::new("Q")).is_none());
}
