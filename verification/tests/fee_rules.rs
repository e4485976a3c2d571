//! Exact fees, refusals and laws of fee management.

use astraport::base::address::Address;
use astraport::base::symbol::Symbol;
use astraport::fee::contract::FeeManagementContract;
use astraport::fee::engine::{apply_discount, apply_fee_cap, clamp_fee, compute_raw_fee};
use astraport::fee::records::{
    FeeCategory, FeeError, FeeRecord, FeeType, RevenueRecipient, TierEntry,
};
use astraport::fee::reporting::{
    build_fee_summary, build_portfolio_breakdown, build_portfolio_report, has_portfolio_records,
};
use astraport::fee::state::FeeEnv;

/// A new address that signs every call.
fn address(env: &mut FeeEnv) -> Address {
    let text = format!("G{:0>55}", env.auths.len() + 1);
    let made = Address::from_text(text.as_bytes());
    env.auths.push(made);
    made
}

fn setup() -> (FeeEnv, Address) {
    let mut env = FeeEnv::new(0);
    let admin = address(&mut env);
    FeeManagementContract::initialize(&mut env, admin).unwrap();
    (env, admin)
}

fn make_record(
    fid: Symbol,
    category: FeeCategory,
    portfolio: Symbol,
    base: i128,
    fee: i128,
    discount_bps: i128,
    waived: bool,
) -> FeeRecord {
    FeeRecord {
        fee_id: fid,
        category,
        portfolio_id: portfolio,
        base_amount: base,
        fee_amount: fee,
        discount_bps,
        waived,
        timestamp: 1000,
        collector: Address::from_text(format!("G{:0>55}", 9).as_bytes()),
    }
}

/// Defines a percentage fee in a category.
fn percentage(env: &mut FeeEnv, id: &str, bps: i128, category: FeeCategory) -> Symbol {
    let fee = Symbol::new(id);
    FeeManagementContract::set_fee_structure(
        env,
        fee,
        FeeType::Percentage,
        bps,
        Vec::new(),
        category,
        true,
        None,
    )
    .unwrap();
    fee
}

fn recipient(address: Address, share_numerator: u32) -> RevenueRecipient {
    RevenueRecipient { address, share_numerator, label: Symbol::new("share") }
}

// Arithmetic

#[test]
fn rates_round_toward_zero_and_do_not_overflow() {
    let none = Vec::new();
    assert_eq!(compute_raw_fee(&FeeType::Percentage, &250, &none, 399), Ok(9));
    assert_eq!(compute_raw_fee(&FeeType::Percentage, &250, &none, -399), Ok(-9));
    assert_eq!(compute_raw_fee(&FeeType::Flat, &17, &none, 5), Ok(17));
    assert_eq!(
        compute_raw_fee(&FeeType::Percentage, &250, &none, i128::MAX),
        Err(FeeError::ArithmeticOverflow)
    );
    assert_eq!(apply_discount(999, 3_333, false), Ok(666));
    assert_eq!(apply_discount(999, 20_000, false), Ok(0));
    assert_eq!(apply_discount(i128::MAX, 1, false), Err(FeeError::ArithmeticOverflow));
    assert_eq!(clamp_fee(5, -3), -3);
    assert_eq!(apply_fee_cap(5, Some(-3)), 5);
    assert_eq!(apply_fee_cap(5, Some(0)), 0);
}

#[test]
fn the_highest_reached_tier_wins_in_any_order() {
    let tiers = vec![
        TierEntry { threshold: 1_000, fee_bps: 30 },
        TierEntry { threshold: 0, fee_bps: 50 },
        TierEntry { threshold: 10_000, fee_bps: 15 },
    ];
    assert_eq!(compute_raw_fee(&FeeType::Tiered, &0, &tiers, 999), Ok(4));
    assert_eq!(compute_raw_fee(&FeeType::Tiered, &0, &tiers, 1_000), Ok(3));
    assert_eq!(compute_raw_fee(&FeeType::Tiered, &0, &tiers, 20_000), Ok(30));
    assert_eq!(compute_raw_fee(&FeeType::Tiered, &0, &tiers, -1), Ok(0));
}

#[test]
fn fees_stay_within_amount_and_cap() {
    let (mut env, _admin) = setup();
    let fee = Symbol::new("FLAT");
    FeeManagementContract::set_fee_structure(
        &mut env,
        fee,
        FeeType::Flat,
        1_000,
        Vec::new(),
        FeeCategory::Custom,
        true,
        Some(400),
    )
    .unwrap();
    for (amount, expected) in [(0, 0), (300, 300), (700, 400), (5_000, 400)] {
        let quote = FeeManagementContract::calculate_fee(&env, fee, amount).unwrap();
        assert_eq!(quote.fee_amount, expected);
        assert_eq!(quote.raw_fee, 1_000);
    }
    FeeManagementContract::set_fee_cap(&mut env, fee, None).unwrap();
    let quote = FeeManagementContract::calculate_fee(&env, fee, 5_000).unwrap();
    assert_eq!(quote.fee_amount, 1_000);
}

// Structures

#[test]
fn unknown_and_inactive_fees_are_refused() {
    let (mut env, _admin) = setup();
    let caller = address(&mut env);
    let nothing = Symbol::new("NONE");
    let portfolio = Symbol::new("P1");
    assert_eq!(
        FeeManagementContract::calculate_fee(&env, nothing, 5),
        Err(FeeError::FeeNotFound)
    );
    assert_eq!(
        FeeManagementContract::set_fee_active(&mut env, nothing, true),
        Err(FeeError::FeeNotFound)
    );
    assert_eq!(
        FeeManagementContract::set_portfolio_fee(&mut env, portfolio, nothing),
        Err(FeeError::FeeNotFound)
    );
    let fee = percentage(&mut env, "PCT", 100, FeeCategory::Trading);
    FeeManagementContract::set_fee_active(&mut env, fee, false).unwrap();
    assert_eq!(
        FeeManagementContract::collect_fee(&mut env, caller, fee, portfolio, 1_000),
        Err(FeeError::FeeInactive)
    );
    assert_eq!(FeeManagementContract::get_fee_history_count(&env), 0);
    assert_eq!(
        FeeManagementContract::set_fee_structure_simple(
            &mut env,
            fee,
            FeeType::Percentage,
            10_001,
            Vec::new(),
            true,
        ),
        Err(FeeError::InvalidFeeConfiguration)
    );
}

// Waivers

#[test]
fn a_waiver_replaces_the_one_before_and_expires() {
    let (mut env, _admin) = setup();
    let fee = percentage(&mut env, "PCT", 1_000, FeeCategory::Trading);
    let portfolio = Symbol::new("P1");
    FeeManagementContract::set_fee_waiver(&mut env, None, Some(portfolio), 5_000, false, None, 100)
        .unwrap();
    FeeManagementContract::set_fee_waiver(&mut env, None, Some(portfolio), 2_500, false, None, 100)
        .unwrap();
    assert_eq!(FeeManagementContract::list_fee_waivers(&env).len(), 1);
    env.timestamp = 99;
    let quote =
        FeeManagementContract::calculate_portfolio_fee(&env, portfolio, fee, 1_000).unwrap();
    assert_eq!((quote.fee_amount, quote.discount_bps), (75, 2_500));
    env.timestamp = 100;
    let quote =
        FeeManagementContract::calculate_portfolio_fee(&env, portfolio, fee, 1_000).unwrap();
    assert_eq!((quote.fee_amount, quote.discount_bps), (100, 0));
}

#[test]
fn a_payer_waiver_counts_when_collecting() {
    let (mut env, _admin) = setup();
    let fee = percentage(&mut env, "PCT", 1_000, FeeCategory::Trading);
    let portfolio = Symbol::new("P1");
    let friend = address(&mut env);
    let other = address(&mut env);
    FeeManagementContract::set_fee_waiver(&mut env, Some(friend), None, 0, true, None, 0).unwrap();
    assert_eq!(
        FeeManagementContract::collect_fee(&mut env, friend, fee, portfolio, 1_000),
        Ok(0)
    );
    assert_eq!(
        FeeManagementContract::collect_fee(&mut env, other, fee, portfolio, 1_000),
        Ok(100)
    );
    FeeManagementContract::remove_fee_waiver(&mut env, Some(friend), None);
    assert!(FeeManagementContract::list_fee_waivers(&env).is_empty());
    assert_eq!(
        FeeManagementContract::collect_fee(&mut env, friend, fee, portfolio, 1_000),
        Ok(100)
    );
    assert_eq!(
        FeeManagementContract::set_fee_waiver(&mut env, None, None, 10_001, false, None, 0),
        Err(FeeError::InvalidFeeConfiguration)
    );
}

// Collection

#[test]
fn totals_stay_in_step() {
    let (mut env, _admin) = setup();
    let caller = address(&mut env);
    percentage(&mut env, "YIELD", 1_000, FeeCategory::Yield);
    percentage(&mut env, "MGMT", 100, FeeCategory::Management);
    percentage(&mut env, "REBAL", 50, FeeCategory::Rebalancing);
    percentage(&mut env, "TRADE", 30, FeeCategory::Trading);
    let p1 = Symbol::new("P1");
    let p2 = Symbol::new("P2");
    let contract = &mut env;
    assert_eq!(FeeManagementContract::collect_yield_fee(contract, caller, p1, 10_000), Ok(1_000));
    assert_eq!(
        FeeManagementContract::collect_management_fee(contract, caller, p1, 10_000),
        Ok(100)
    );
    assert_eq!(
        FeeManagementContract::collect_rebalance_fee(contract, caller, p2, 10_000),
        Ok(50)
    );
    assert_eq!(FeeManagementContract::collect_trading_fee(contract, caller, p2, 10_000), Ok(30));
    let categories = [
        FeeCategory::Yield,
        FeeCategory::Management,
        FeeCategory::Rebalancing,
        FeeCategory::Trading,
    ];
    let by_category: i128 =
        categories.iter().map(|c| FeeManagementContract::get_category_total(&env, *c)).sum();
    let by_portfolio = FeeManagementContract::get_portfolio_total(&env, p1)
        + FeeManagementContract::get_portfolio_total(&env, p2);
    assert_eq!(FeeManagementContract::get_total_collected(&env), 1_180);
    assert_eq!(by_category, 1_180);
    assert_eq!(by_portfolio, 1_180);
    let newest = FeeManagementContract::get_fee_history(&env, 1);
    assert_eq!(newest[0].fee_amount, 30);
    assert_eq!(newest[0].collector, caller);
    let trades =
        FeeManagementContract::get_fee_history_by_category(&env, FeeCategory::Trading, 0);
    assert_eq!(trades.len(), 1);
}

// Revenue

#[test]
fn revenue_is_paid_out_in_full() {
    let (mut env, _admin) = setup();
    let who: Vec<Address> = (0..3).map(|_| address(&mut env)).collect();
    let recipients = who.iter().map(|a| recipient(*a, 1)).collect();
    FeeManagementContract::set_revenue_recipients(&mut env, recipients).unwrap();
    let paid = FeeManagementContract::distribute_revenue_amount(&env, 101).unwrap();
    assert_eq!(paid, vec![(who[0], 35), (who[1], 33), (who[2], 33)]);
    assert!(FeeManagementContract::distribute_revenue_amount(&env, 0).unwrap().is_empty());
    let many = vec![recipient(who[0], 1); 21];
    assert_eq!(
        FeeManagementContract::set_revenue_recipients(&mut env, many),
        Err(FeeError::TooManyRecipients)
    );
    FeeManagementContract::set_revenue_recipients(&mut env, vec![recipient(who[0], 2)]).unwrap();
    assert_eq!(
        FeeManagementContract::distribute_revenue_amount(&env, i128::MAX),
        Err(FeeError::ArithmeticOverflow)
    );
}

// Estimates and administration

#[test]
fn estimates_charge_nothing() {
    let (mut env, _admin) = setup();
    let fee = percentage(&mut env, "PCT", 1_000, FeeCategory::Trading);
    let cheap = percentage(&mut env, "CHEAP", 100, FeeCategory::Trading);
    let portfolio = Symbol::new("P1");
    FeeManagementContract::set_portfolio_fee(&mut env, portfolio, cheap).unwrap();
    let plain = FeeManagementContract::estimate_fee(&env, fee, None, 1_000).unwrap();
    assert_eq!(plain.fee_amount, 100);
    let assigned = FeeManagementContract::estimate_fee(&env, fee, Some(portfolio), 1_000).unwrap();
    assert_eq!(assigned.fee_amount, 10);
    assert_eq!(FeeManagementContract::get_total_collected(&env), 0);
}

#[test]
fn fees_are_handed_over() {
    let (mut env, _admin) = setup();
    let heir = address(&mut env);
    FeeManagementContract::transfer_admin(&mut env, heir);
    assert_eq!(FeeManagementContract::get_admin(&env), heir);
}

// Reports

#[test]
fn reports_sum_by_category_and_portfolio() {
    let fee = Symbol::new("F");
    let p1 = Symbol::new("P1");
    let p2 = Symbol::new("P2");
    let records = vec![
        make_record(fee, FeeCategory::Trading, p1, 1_000, 30, 0, false),
        make_record(fee, FeeCategory::Yield, p2, 500, 50, 0, false),
        make_record(fee, FeeCategory::Trading, p1, 200, 0, 0, true),
        make_record(fee, FeeCategory::Yield, p1, 100, 7, 0, false),
    ];
    let summary = build_fee_summary(&records);
    assert_eq!(summary.total_collected, 87);
    assert_eq!(summary.total_events, 4);
    assert_eq!(summary.waived_count, 1);
    assert_eq!(summary.total_discounts, 970 + 450 + 200 + 93);
    assert_eq!(summary.by_category, vec![(FeeCategory::Yield, 57), (FeeCategory::Trading, 30)]);
    assert_eq!(build_portfolio_breakdown(&records), vec![(p1, 37), (p2, 50)]);
    let report = build_portfolio_report(&p1, &records, fee);
    assert_eq!((report.total_fees, report.event_count), (37, 3));
    assert_eq!(report.by_category, vec![(FeeCategory::Yield, 7), (FeeCategory::Trading, 30)]);
    assert!(has_portfolio_records(&records, &p2));
    assert!(!has_portfolio_records(&records, &Symbol::new("P3")));
}

#[test]
fn a_full_list_of_waivers_takes_no_new_target() {
    let (mut env, _admin) = setup();
    for i in 0..50 {
        let portfolio = Symbol::new(&format!("P{i}"));
        FeeManagementContract::set_fee_waiver(&mut env, None, Some(portfolio), 1, false, None, 0)
            .unwrap();
    }
    let known = Some(Symbol::new("P7"));
    assert_eq!(
        FeeManagementContract::set_fee_waiver(
            &mut env,
            None,
            Some(Symbol::new("P50")),
            1,
            false,
            None,
            0
        ),
        Err(FeeError::InvalidFeeConfiguration)
    );
    assert_eq!(FeeManagementContract::list_fee_waivers(&env).len(), 50);
    FeeManagementContract::set_fee_waiver(&mut env, None, known, 9, false, None, 0).unwrap();
    assert_eq!(FeeManagementContract::list_fee_waivers(&env)[7].discount_bps, 9);
    FeeManagementContract::remove_fee_waiver(&mut env, None, known);
    assert_eq!(FeeManagementContract::list_fee_waivers(&env).len(), 49);
}

#[test]
fn a_preview_is_what_is_collected() {
    let (mut env, _admin) = setup();
    let fee = percentage(&mut env, "PCT", 1_000, FeeCategory::Trading);
    let portfolio = Symbol::new("P1");
    let friend = address(&mut env);
    FeeManagementContract::set_fee_waiver(&mut env, Some(friend), None, 2_500, false, None, 0)
        .unwrap();
    let quote =
        FeeManagementContract::preview_collection(&env, friend, fee, portfolio, 1_000).unwrap();
    assert_eq!((quote.fee_amount, quote.discount_bps), (75, 2_500));
    assert_eq!(FeeManagementContract::get_portfolio_total(&env, portfolio), 0);
    assert_eq!(FeeManagementContract::collect_fee(&mut env, friend, fee, portfolio, 1_000), Ok(75));
    let unknown = Symbol::new("NONE");
    assert_eq!(
        FeeManagementContract::preview_collection(&env, friend, unknown, portfolio, 1_000),
        Err(FeeError::FeeNotFound)
    );
}

#[test]
fn waivers_keep_their_order() {
    let (mut env, _admin) = setup();
    let names = ["P0", "P1", "P2"];
    for (i, name) in names.iter().enumerate() {
        let portfolio = Some(Symbol::new(name));
        let discount = i as i128;
        FeeManagementContract::set_fee_waiver(&mut env, None, portfolio, discount, false, None, 0)
            .unwrap();
    }
    let middle = Some(Symbol::new("P1"));
    FeeManagementContract::set_fee_waiver(&mut env, None, middle, 10_000, true, None, 5).unwrap();
    let listed = FeeManagementContract::list_fee_waivers(&env);
    let discounts: Vec<i128> = listed.iter().map(|w| w.discount_bps).collect();
    assert_eq!(discounts, vec![0, 10_000, 2]);
    assert_eq!((listed[1].waived, listed[1].expires_at), (true, 5));
    for discount in [-1, 10_001] {
        assert_eq!(
            FeeManagementContract::set_fee_waiver(&mut env, None, middle, discount, false, None, 0),
            Err(FeeError::InvalidFeeConfiguration)
        );
    }
    FeeManagementContract::remove_fee_waiver(&mut env, None, middle);
    let listed = FeeManagementContract::list_fee_waivers(&env);
    let discounts: Vec<i128> = listed.iter().map(|w| w.discount_bps).collect();
    assert_eq!(discounts, vec![0, 2]);
}
