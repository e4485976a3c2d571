//! Fee arithmetic, structures, waivers, collection, revenue and reports.

use astraport::base::address::Address;
use astraport::base::symbol::Symbol;
use astraport::fee::contract::FeeManagementContract;
use astraport::fee::engine::{apply_discount, apply_fee_cap, clamp_fee, validate_fee_structure};
use astraport::fee::records::{
    FeeCategory, FeeError, FeeRecord, FeeStructure, FeeType, RevenueRecipient, TierEntry, BPS_DENOM,
};
use astraport::fee::reporting::{
    build_fee_summary, build_portfolio_breakdown, count_matching, count_waived,
};
use astraport::fee::state::FeeEnv;

/// A new address that signs every call.
fn address(env: &mut FeeEnv) -> Address {
    let text = format!("G{:0>55}", env.auths.len() + 1);
    let made = Address::from_text(text.as_bytes());
    env.auths.push(made);
    made
}

fn setup() -> (FeeEnv, Address) {
    let mut env = FeeEnv::new(0);
    let admin = address(&mut env);
    FeeManagementContract::initialize(&mut env, admin).unwrap();
    (env, admin)
}

fn make_record(
    fid: Symbol,
    category: FeeCategory,
    portfolio: Symbol,
    base: i128,
    fee: i128,
    discount_bps: i128,
    waived: bool,
) -> FeeRecord {
    FeeRecord {
        fee_id: fid,
        category,
        portfolio_id: portfolio,
        base_amount: base,
        fee_amount: fee,
        discount_bps,
        waived,
        timestamp: 1000,
        collector: Address::from_text(format!("G{:0>55}", 9).as_bytes()),
    }
}

// Fee arithmetic

#[test]
fn test_clamp_fee_negative() {
    assert_eq!(clamp_fee(-100, 1_000), 0);
}

#[test]
fn test_clamp_fee_zero() {
    assert_eq!(clamp_fee(0, 1_000), 0);
}

#[test]
fn test_clamp_fee_within_bounds() {
    assert_eq!(clamp_fee(500, 1_000), 500);
}

#[test]
fn test_clamp_fee_exceeds_amount() {
    assert_eq!(clamp_fee(1_500, 1_000), 1_000);
}

#[test]
fn test_apply_discount_none() {
    assert_eq!(apply_discount(1_000, 0, false), Ok(1_000));
}

#[test]
fn test_apply_discount_waived() {
    assert_eq!(apply_discount(1_000, 5000, true), Ok(0));
}

#[test]
fn test_apply_discount_50pct() {
    // 50% discount = 5000 bps
    assert_eq!(apply_discount(1_000, 5000, false), Ok(500));
}

#[test]
fn test_apply_discount_full() {
    // 100% discount = 10_000 bps
    assert_eq!(apply_discount(1_000, BPS_DENOM, false), Ok(0));
}

#[test]
fn test_apply_fee_cap_none() {
    assert_eq!(apply_fee_cap(500, None), 500);
}

#[test]
fn test_apply_fee_cap_exceeds() {
    assert_eq!(apply_fee_cap(500, Some(300)), 300);
}

#[test]
fn test_apply_fee_cap_within() {
    assert_eq!(apply_fee_cap(200, Some(300)), 200);
}

#[test]
fn test_validate_percentage_ok() {
    let fs = FeeStructure {
        fee_id: Symbol::new("T"),
        fee_type: FeeType::Percentage,
        amount_bps: 250,
        tiered_entries: Vec::new(),
        category: FeeCategory::Trading,
        active: true,
        fee_cap: None,
    };
    assert!(validate_fee_structure(&fs).is_ok());
}

#[test]
fn test_validate_percentage_out_of_range() {
    let fs = FeeStructure {
        fee_id: Symbol::new("T"),
        fee_type: FeeType::Percentage,
        amount_bps: 15_000, // > 100%
        tiered_entries: Vec::new(),
        category: FeeCategory::Trading,
        active: true,
        fee_cap: None,
    };
    assert_eq!(
        validate_fee_structure(&fs),
        Err(FeeError::InvalidFeeConfiguration)
    );
}

#[test]
fn test_validate_flat_negative() {
    let fs = FeeStructure {
        fee_id: Symbol::new("T"),
        fee_type: FeeType::Flat,
        amount_bps: -1,
        tiered_entries: Vec::new(),
        category: FeeCategory::Trading,
        active: true,
        fee_cap: None,
    };
    assert_eq!(
        validate_fee_structure(&fs),
        Err(FeeError::InvalidFeeConfiguration)
    );
}

#[test]
fn test_validate_tiered_empty() {
    let fs = FeeStructure {
        fee_id: Symbol::new("T"),
        fee_type: FeeType::Tiered,
        amount_bps: 0,
        tiered_entries: Vec::new(),
        category: FeeCategory::Trading,
        active: true,
        fee_cap: None,
    };
    assert_eq!(
        validate_fee_structure(&fs),
        Err(FeeError::InvalidFeeConfiguration)
    );
}

#[test]
fn test_validate_negative_cap() {
    let fs = FeeStructure {
        fee_id: Symbol::new("T"),
        fee_type: FeeType::Flat,
        amount_bps: 100,
        tiered_entries: Vec::new(),
        category: FeeCategory::Trading,
        active: true,
        fee_cap: Some(-10),
    };
    assert_eq!(
        validate_fee_structure(&fs),
        Err(FeeError::InvalidFeeConfiguration)
    );
}

// Structures, waivers, collection and revenue

#[test]
fn test_initialize() {
    let (env, admin) = setup();
    assert_eq!(FeeManagementContract::get_admin(&env), admin);
}

#[test]
fn test_double_initialize_fails() {
    let mut env = FeeEnv::new(0);
    let admin = address(&mut env);
    let result = FeeManagementContract::initialize(&mut env, admin);
    assert!(result.is_ok());
    let admin2 = address(&mut env);
    let result2 = FeeManagementContract::initialize(&mut env, admin2);
    assert_eq!(result2, Err(FeeError::AlreadyInitialized));
}

#[test]
fn test_set_get_fee_structure() {
    let (mut env, _admin) = setup();
    let fid = Symbol::new("TEST");
    FeeManagementContract::set_fee_structure_simple(
        &mut env,
        fid,
        FeeType::Percentage,
        250,
        Vec::new(),
        true,
    )
    .unwrap();
    let fs = FeeManagementContract::get_fee_structure(&env, fid).unwrap();
    assert_eq!(fs.fee_type, FeeType::Percentage);
    assert_eq!(fs.amount_bps, 250);
    assert!(fs.active);
}

#[test]
fn test_set_fee_structure_with_category_and_cap() {
    let (mut env, _admin) = setup();
    let fid = Symbol::new("REBAL");
    FeeManagementContract::set_fee_structure(
        &mut env,
        fid,
        FeeType::Percentage,
        200,
        Vec::new(),
        FeeCategory::Rebalancing,
        true,
        Some(50_000),
    )
    .unwrap();
    let fs = FeeManagementContract::get_fee_structure(&env, fid).unwrap();
    assert_eq!(fs.category, FeeCategory::Rebalancing);
    assert_eq!(fs.fee_cap, Some(50_000));
}

#[test]
fn test_fee_calculation_percentage() {
    let (mut env, _admin) = setup();
    let fid = Symbol::new("PCT");
    FeeManagementContract::set_fee_structure_simple(
        &mut env,
        fid,
        FeeType::Percentage,
        250,
        Vec::new(),
        true,
    )
    .unwrap();
    let result = FeeManagementContract::calculate_fee(&env, fid, 10_000_000).unwrap();
    assert_eq!(result.fee_amount, 250_000);
}

#[test]
fn test_fee_calculation_flat() {
    let (mut env, _admin) = setup();
    let fid = Symbol::new("FLAT");
    FeeManagementContract::set_fee_structure_simple(
        &mut env,
        fid,
        FeeType::Flat,
        1_000,
        Vec::new(),
        true,
    )
    .unwrap();
    let r1 = FeeManagementContract::calculate_fee(&env, fid, 500).unwrap();
    assert_eq!(r1.fee_amount, 500); // clamped
    let r2 = FeeManagementContract::calculate_fee(&env, fid, 5_000).unwrap();
    assert_eq!(r2.fee_amount, 1_000);
}

#[test]
fn test_fee_calculation_tiered() {
    let (mut env, _admin) = setup();
    let mut tiers = Vec::new();
    tiers.push(TierEntry {
        threshold: 0,
        fee_bps: 50,
    });
    tiers.push(TierEntry {
        threshold: 10_000_000,
        fee_bps: 30,
    });
    tiers.push(TierEntry {
        threshold: 100_000_000,
        fee_bps: 15,
    });
    let fid = Symbol::new("TIER");
    FeeManagementContract::set_fee_structure_simple(
        &mut env,
        fid,
        FeeType::Tiered,
        0,
        tiers,
        true,
    )
    .unwrap();
    assert_eq!(FeeManagementContract::calculate_fee(
        &env,
        fid,
        5_000_000,
    )
    .unwrap().fee_amount, 25_000);
    assert_eq!(FeeManagementContract::calculate_fee(
        &env,
        fid,
        50_000_000,
    )
    .unwrap().fee_amount, 150_000);
    assert_eq!(FeeManagementContract::calculate_fee(
        &env,
        fid,
        200_000_000,
    )
    .unwrap().fee_amount, 300_000);
}

#[test]
fn test_fee_calculation_with_cap() {
    let (mut env, _admin) = setup();
    let fid = Symbol::new("CAP");
    FeeManagementContract::set_fee_structure(
        &mut env,
        fid,
        FeeType::Percentage,
        200,
        Vec::new(),
        FeeCategory::Trading,
        true,
        Some(50_000),
    )
    .unwrap();
    let result = FeeManagementContract::calculate_fee(&env, fid, 100_000_000).unwrap();
    assert_eq!(result.fee_amount, 50_000);
    assert_eq!(result.fee_cap, Some(50_000));
}

#[test]
fn test_fee_structure_list() {
    let (mut env, _admin) = setup();
    let f1 = Symbol::new("F1");
    let f2 = Symbol::new("F2");
    FeeManagementContract::set_fee_structure_simple(
        &mut env,
        f1,
        FeeType::Percentage,
        100,
        Vec::new(),
        true,
    )
    .unwrap();
    FeeManagementContract::set_fee_structure_simple(
        &mut env,
        f2,
        FeeType::Flat,
        500,
        Vec::new(),
        true,
    )
    .unwrap();
    let list = FeeManagementContract::list_fee_structures(&env);
    assert_eq!(list.len(), 2);
    FeeManagementContract::set_fee_active(&mut env, f1, false).unwrap();
    let fs = FeeManagementContract::get_fee_structure(&env, f1).unwrap();
    assert!(!fs.active);
}

#[test]
fn test_set_get_remove_portfolio_fee() {
    let (mut env, _admin) = setup();
    let fid = Symbol::new("PF");
    FeeManagementContract::set_fee_structure_simple(
        &mut env,
        fid,
        FeeType::Percentage,
        100,
        Vec::new(),
        true,
    )
    .unwrap();
    let pid = Symbol::new("PORT1");
    FeeManagementContract::set_portfolio_fee(&mut env, pid, fid).unwrap();
    assert_eq!(FeeManagementContract::get_portfolio_fee(&env, pid), Some(fid));
    FeeManagementContract::remove_portfolio_fee(&mut env, pid);
    assert_eq!(FeeManagementContract::get_portfolio_fee(&env, pid), None);
}

#[test]
fn test_calculate_portfolio_fee() {
    let (mut env, _admin) = setup();
    let fid = Symbol::new("PF");
    FeeManagementContract::set_fee_structure_simple(
        &mut env,
        fid,
        FeeType::Percentage,
        200,
        Vec::new(),
        true,
    )
    .unwrap();
    let pid = Symbol::new("PORT1");
    FeeManagementContract::set_portfolio_fee(&mut env, pid, fid).unwrap();
    let result = FeeManagementContract::calculate_portfolio_fee(
        &env,
        pid,
        Symbol::new("FALL"),
        10_000_000,
    )
    .unwrap();
    assert_eq!(result.fee_amount, 200_000);
}

#[test]
fn test_waiver_discount() {
    let (mut env, _admin) = setup();
    let fid = Symbol::new("WD");
    FeeManagementContract::set_fee_structure_simple(
        &mut env,
        fid,
        FeeType::Percentage,
        200,
        Vec::new(),
        true,
    )
    .unwrap();
    let pid = Symbol::new("WDP");
    FeeManagementContract::set_portfolio_fee(&mut env, pid, fid).unwrap();
    FeeManagementContract::set_fee_waiver(
        &mut env,
        None,
        Some(pid),
        5000,
        false,
        None,
        0,
    )
    .unwrap();
    let result = FeeManagementContract::calculate_portfolio_fee(
        &env,
        pid,
        Symbol::new("X"),
        10_000_000,
    )
    .unwrap();
    assert_eq!(result.fee_amount, 100_000);
    assert_eq!(result.discount_bps, 5000);
}

#[test]
fn test_waiver_full_waive() {
    let (mut env, _admin) = setup();
    let fid = Symbol::new("FW");
    FeeManagementContract::set_fee_structure_simple(
        &mut env,
        fid,
        FeeType::Percentage,
        200,
        Vec::new(),
        true,
    )
    .unwrap();
    let pid = Symbol::new("FWD");
    FeeManagementContract::set_portfolio_fee(&mut env, pid, fid).unwrap();
    FeeManagementContract::set_fee_waiver(&mut env, None, Some(pid), 0, true, None, 0).unwrap();
    let result = FeeManagementContract::calculate_portfolio_fee(
        &env,
        pid,
        Symbol::new("X"),
        10_000_000,
    )
    .unwrap();
    assert_eq!(result.fee_amount, 0);
    assert!(result.waived);
}

#[test]
fn test_collect_fee_updates_totals() {
    let (mut env, _admin) = setup();
    let fid = Symbol::new("COL");
    FeeManagementContract::set_fee_structure_simple(
        &mut env,
        fid,
        FeeType::Percentage,
        250,
        Vec::new(),
        true,
    )
    .unwrap();
    let pid = Symbol::new("P1");
    let caller = address(&mut env);
    let fee = FeeManagementContract::collect_fee(&mut env, caller, fid, pid, 10_000_000).unwrap();
    assert_eq!(fee, 250_000);
    assert_eq!(FeeManagementContract::get_total_collected(&env), 250_000);
    assert_eq!(FeeManagementContract::get_portfolio_total(&env, pid), 250_000);
    assert_eq!(FeeManagementContract::get_fee_history_count(&env), 1);
}

#[test]
fn test_collect_multiple_fees() {
    let (mut env, _admin) = setup();
    let fid = Symbol::new("CM");
    FeeManagementContract::set_fee_structure_simple(
        &mut env,
        fid,
        FeeType::Percentage,
        200,
        Vec::new(),
        true,
    )
    .unwrap();
    let p1 = Symbol::new("P1");
    let p2 = Symbol::new("P2");
    let caller = address(&mut env);
    FeeManagementContract::collect_fee(&mut env, caller, fid, p1, 10_000_000).unwrap();
    FeeManagementContract::collect_fee(&mut env, caller, fid, p2, 5_000_000).unwrap();
    assert_eq!(FeeManagementContract::get_total_collected(&env), 300_000);
    assert_eq!(FeeManagementContract::get_portfolio_total(&env, p1), 200_000);
    assert_eq!(FeeManagementContract::get_portfolio_total(&env, p2), 100_000);
    assert_eq!(FeeManagementContract::get_fee_history_count(&env), 2);
}

#[test]
fn test_revenue_distribution() {
    let (mut env, _admin) = setup();
    let t1 = address(&mut env);
    let t2 = address(&mut env);
    let mut recipients = Vec::new();
    recipients.push(RevenueRecipient {
        address: t1,
        share_numerator: 70,
        label: Symbol::new("treasury"),
    });
    recipients.push(RevenueRecipient {
        address: t2,
        share_numerator: 30,
        label: Symbol::new("dev"),
    });
    FeeManagementContract::set_revenue_recipients(&mut env, recipients).unwrap();
    let dist = FeeManagementContract::distribute_revenue_amount(&env, 251_000).unwrap();
    assert_eq!(dist.len(), 2);
    assert_eq!(dist[0].1, 175_700);
    assert_eq!(dist[1].1, 75_300);
}

#[test]
fn test_revenue_distribution_empty() {
    let (env, _admin) = setup();
    let dist = FeeManagementContract::distribute_revenue_amount(&env, 10_000).unwrap();
    assert_eq!(dist.len(), 0);
}

#[test]
fn test_fee_history_by_portfolio() {
    let (mut env, _admin) = setup();
    let fid = Symbol::new("FH");
    FeeManagementContract::set_fee_structure_simple(
        &mut env,
        fid,
        FeeType::Percentage,
        100,
        Vec::new(),
        true,
    )
    .unwrap();
    let p1 = Symbol::new("P1");
    let p2 = Symbol::new("P2");
    let caller = address(&mut env);
    FeeManagementContract::collect_fee(&mut env, caller, fid, p1, 1_000_000).unwrap();
    FeeManagementContract::collect_fee(&mut env, caller, fid, p2, 2_000_000).unwrap();
    FeeManagementContract::collect_fee(&mut env, caller, fid, p1, 3_000_000).unwrap();
    assert_eq!(FeeManagementContract::get_fee_history_by_portfolio(&env, p1, 0).len(), 2);
    assert_eq!(FeeManagementContract::get_fee_history_by_portfolio(&env, p2, 0).len(), 1);
}

#[test]
fn test_fee_history_limit() {
    let (mut env, _admin) = setup();
    let fid = Symbol::new("FL");
    FeeManagementContract::set_fee_structure_simple(
        &mut env,
        fid,
        FeeType::Percentage,
        100,
        Vec::new(),
        true,
    )
    .unwrap();
    let pid = Symbol::new("P1");
    let caller = address(&mut env);
    for _ in 0..5 {
        FeeManagementContract::collect_fee(&mut env, caller, fid, pid, 1_000_000).unwrap();
    }
    assert_eq!(FeeManagementContract::get_fee_history(&env, 0).len(), 5);
    assert_eq!(FeeManagementContract::get_fee_history(&env, 3).len(), 3);
}

#[test]
fn test_zero_fee_portfolio() {
    let (mut env, _admin) = setup();
    let zero_id = Symbol::new("ZERO");
    FeeManagementContract::set_fee_structure_simple(
        &mut env,
        zero_id,
        FeeType::Percentage,
        0,
        Vec::new(),
        true,
    )
    .unwrap();
    let grant = Symbol::new("GRANT");
    FeeManagementContract::set_portfolio_fee(&mut env, grant, zero_id).unwrap();
    let result = FeeManagementContract::calculate_portfolio_fee(
        &env,
        grant,
        Symbol::new("X"),
        10_000_000,
    )
    .unwrap();
    assert_eq!(result.fee_amount, 0);
}

#[test]
fn test_error_codes() {
    assert_eq!(FeeError::FeeNotFound.code(), 1);
    assert_eq!(FeeError::FeeInactive.code(), 2);
    assert_eq!(FeeError::InvalidFeeConfiguration.code(), 3);
    assert_eq!(FeeError::ArithmeticOverflow.code(), 4);
    assert_eq!(FeeError::FeeWaiverNotFound.code(), 5);
    assert_eq!(FeeError::TooManyRecipients.code(), 6);
    assert_eq!(FeeError::AlreadyInitialized.code(), 7);
    assert_eq!(FeeError::Unauthorized.code(), 8);
}

// Reports

#[test]
fn test_summary_single_category() {
    let mut records = Vec::<FeeRecord>::new();
    records.push(make_record(
        Symbol::new("R"),
        FeeCategory::Rebalancing,
        Symbol::new("P1"),
        1_000_000,
        25_000,
        0,
        false,
    ));
    records.push(make_record(
        Symbol::new("R"),
        FeeCategory::Rebalancing,
        Symbol::new("P1"),
        2_000_000,
        50_000,
        0,
        false,
    ));
    let summary = build_fee_summary(&records);
    assert_eq!(summary.total_collected, 75_000);
    assert_eq!(summary.total_events, 2);
    assert_eq!(summary.waived_count, 0);
}

#[test]
fn test_summary_mixed_categories() {
    let mut records = Vec::<FeeRecord>::new();
    records.push(make_record(
        Symbol::new("R"),
        FeeCategory::Rebalancing,
        Symbol::new("P1"),
        1_000_000,
        25_000,
        0,
        false,
    ));
    records.push(make_record(
        Symbol::new("Y"),
        FeeCategory::Yield,
        Symbol::new("P2"),
        500_000,
        5_000,
        0,
        false,
    ));
    records.push(make_record(
        Symbol::new("M"),
        FeeCategory::Management,
        Symbol::new("P1"),
        10_000_000,
        10_000,
        0,
        false,
    ));
    let summary = build_fee_summary(&records);
    assert_eq!(summary.total_collected, 40_000);
    assert_eq!(summary.total_events, 3);
}

#[test]
fn test_summary_with_waived() {
    let mut records = Vec::<FeeRecord>::new();
    records.push(make_record(
        Symbol::new("R"),
        FeeCategory::Rebalancing,
        Symbol::new("P1"),
        1_000_000,
        25_000,
        0,
        false,
    ));
    records.push(make_record(
        Symbol::new("R"),
        FeeCategory::Rebalancing,
        Symbol::new("P2"),
        1_000_000,
        0,
        0,
        true,
    ));
    let summary = build_fee_summary(&records);
    assert_eq!(summary.total_collected, 25_000);
    assert_eq!(summary.waived_count, 1);
}

#[test]
fn test_portfolio_breakdown() {
    let mut records = Vec::<FeeRecord>::new();
    records.push(make_record(
        Symbol::new("R"),
        FeeCategory::Rebalancing,
        Symbol::new("P1"),
        1_000_000,
        25_000,
        0,
        false,
    ));
    records.push(make_record(
        Symbol::new("R"),
        FeeCategory::Rebalancing,
        Symbol::new("P2"),
        2_000_000,
        50_000,
        0,
        false,
    ));
    records.push(make_record(
        Symbol::new("R"),
        FeeCategory::Rebalancing,
        Symbol::new("P1"),
        500_000,
        12_500,
        0,
        false,
    ));
    let breakdown = build_portfolio_breakdown(&records);
    assert_eq!(breakdown.len(), 2);
}

#[test]
fn test_filter_by_category() {
    let mut records = Vec::<FeeRecord>::new();
    records.push(make_record(
        Symbol::new("R"),
        FeeCategory::Rebalancing,
        Symbol::new("P1"),
        1_000_000,
        25_000,
        0,
        false,
    ));
    records.push(make_record(
        Symbol::new("Y"),
        FeeCategory::Yield,
        Symbol::new("P2"),
        500_000,
        5_000,
        0,
        false,
    ));
    assert_eq!(count_matching(&records, FeeCategory::Rebalancing), 1);
    assert_eq!(count_matching(&records, FeeCategory::Yield), 1);
}

#[test]
fn test_filter_waived() {
    let mut records = Vec::<FeeRecord>::new();
    records.push(make_record(
        Symbol::new("R"),
        FeeCategory::Rebalancing,
        Symbol::new("P1"),
        1_000_000,
        25_000,
        0,
        false,
    ));
    records.push(make_record(
        Symbol::new("R"),
        FeeCategory::Rebalancing,
        Symbol::new("P2"),
        1_000_000,
        0,
        0,
        true,
    ));
    assert_eq!(count_waived(&records), 1);
}
