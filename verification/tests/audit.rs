//! Logging, queries, the hash chain, retention and exports.

use astraport::audit::checksum::{entry_payload, first_chain_hash};
use astraport::audit::contract::AuditContract;
use astraport::audit::export::CSV_HEADER;
use astraport::audit::log_query::LogQuery;
use astraport::audit::permissions;
use astraport::audit::records::{AuditEventType, RetentionPolicy, StateSnapshot};
use astraport::audit::state::AuditEnv;
use astraport::base::address::Address;
use astraport::base::bytes::Word32;
use astraport::base::symbol::Symbol;

/// A new address that signs every call.
fn address(env: &mut AuditEnv) -> Address {
    let text = format!("G{:0>55}", env.auths.len() + 1);
    let made = Address::from_text(text.as_bytes());
    env.auths.push(made);
    made
}

fn setup() -> (AuditEnv, Address) {
    let mut env = AuditEnv::new(0);
    let admin = address(&mut env);
    AuditContract::initialize(&mut env, admin).unwrap();
    (env, admin)
}

fn staker(env: &mut AuditEnv) -> Address {
    address(env)
}

fn asset() -> Symbol {
    Symbol::new("XLM")
}

fn happy_snapshot(key: Symbol, value: i128) -> StateSnapshot {
    let mut s = StateSnapshot::empty();
    s.push(key, value);
    s
}

fn text(row: &Vec<u8>) -> String {
    String::from_utf8(row.clone()).unwrap()
}

// Initialization

#[test]
fn test_initialize_sets_admin() {
    let (env, admin) = setup();
    assert_eq!(AuditContract::get_admin(&env).unwrap(), admin);
}

#[test]
fn tests_test_double_initialize_panics() {
    let (mut env, admin) = setup();
    assert!(AuditContract::initialize(&mut env, admin).is_err());
}

// Logging

#[test]
fn test_log_event_increments_sequence() {
    let (mut env, _admin) = setup();
    let s = staker(&mut env);
    let a = asset();
    let seq1 = AuditContract::log_event(
        &mut env,
        s,
        AuditEventType::Stake,
        a,
        permissions::STAKER,
        happy_snapshot(asset(), 0),
        happy_snapshot(asset(), 100),
        Symbol::new("ok"),
        String::from("first"),
    );
    let seq2 = AuditContract::log_event(
        &mut env,
        s,
        AuditEventType::Unstake,
        a,
        permissions::STAKER,
        happy_snapshot(asset(), 100),
        happy_snapshot(asset(), 50),
        Symbol::new("ok"),
        String::from("second"),
    );
    assert_eq!(seq1, 1);
    assert_eq!(seq2, 2);
}

#[test]
fn test_log_event_sets_immutable_fields() {
    let (mut env, _admin) = setup();
    let s = staker(&mut env);
    let a = asset();
    let seq = AuditContract::log_event(
        &mut env,
        s,
        AuditEventType::Stake,
        a,
        permissions::STAKER,
        StateSnapshot::empty(),
        happy_snapshot(a, 100),
        Symbol::new("ok"),
        String::from("ok"),
    );
    let entry = AuditContract::query(&env, &LogQuery::new(10)).remove(0);
    assert_eq!(entry.seq, seq);
    assert_eq!(entry.event_type, AuditEventType::Stake);
    assert_eq!(entry.actor, s);
    assert_eq!(entry.portfolio, a);
    assert_eq!(entry.permissions, permissions::STAKER);
    assert_eq!(entry.outcome, Symbol::new("ok"));
    assert_eq!(entry.detail, String::from("ok"));
    assert_eq!(entry.state_after.fields[0].value, 100);
}

#[test]
fn test_log_event_stamps_ledger_timestamp() {
    let (mut env, _admin) = setup();
    env.timestamp = 1_700_000_000;
    let s = staker(&mut env);
    let a = asset();
    let _ = AuditContract::log_event(
        &mut env,
        s,
        AuditEventType::Stake,
        a,
        permissions::STAKER,
        StateSnapshot::empty(),
        StateSnapshot::empty(),
        Symbol::new("ok"),
        String::from(""),
    );
    let entry = AuditContract::query(&env, &LogQuery::new(10)).remove(0);
    assert_eq!(entry.timestamp, 1_700_000_000);
}

#[test]
fn test_log_event_trusts_caller_auth() {
    // The calling contract answers for the actor; nobody signs here.
    let mut env = AuditEnv::new(0);
    let admin = address(&mut env);
    AuditContract::initialize(&mut env, admin).unwrap();
    env.auths.clear();
    let s = Address::from_text(format!("G{:0>55}", 7).as_bytes());
    let seq = AuditContract::log_event(
        &mut env,
        s,
        AuditEventType::Stake,
        asset(),
        permissions::STAKER,
        StateSnapshot::empty(),
        StateSnapshot::empty(),
        Symbol::new("ok"),
        String::from(""),
    );
    assert_eq!(seq, 1);
}

// Querying

#[test]
fn test_query_returns_all_when_unfiltered() {
    let (mut env, _admin) = setup();
    let s = staker(&mut env);
    let a = asset();
    for _ in 0..5 {
        let _ = AuditContract::log_event(
            &mut env,
            s,
            AuditEventType::Stake,
            a,
            permissions::STAKER,
            StateSnapshot::empty(),
            StateSnapshot::empty(),
            Symbol::new("ok"),
            String::from(""),
        );
    }
    let res = AuditContract::query(&env, &LogQuery::new(10));
    assert_eq!(res.len(), 5);
}

#[test]
fn test_query_by_event_type() {
    let (mut env, _admin) = setup();
    let s = staker(&mut env);
    let a = asset();
    let _ = AuditContract::log_event(
        &mut env,
        s,
        AuditEventType::Stake,
        a,
        permissions::STAKER,
        StateSnapshot::empty(),
        StateSnapshot::empty(),
        Symbol::new("ok"),
        String::from(""),
    );
    let _ = AuditContract::log_event(
        &mut env,
        s,
        AuditEventType::Unstake,
        a,
        permissions::STAKER,
        StateSnapshot::empty(),
        StateSnapshot::empty(),
        Symbol::new("ok"),
        String::from(""),
    );
    let staked = AuditContract::query(&env, &LogQuery::new(10).event_type(AuditEventType::Stake));
    assert_eq!(staked.len(), 1);
    assert_eq!(staked[0].event_type, AuditEventType::Stake);
}

#[test]
fn test_query_filters_by_portfolio() {
    let (mut env, _admin) = setup();
    let s = staker(&mut env);
    let xlm = Symbol::new("XLM");
    let usdc = Symbol::new("USDC");
    let _ = AuditContract::log_event(
        &mut env,
        s,
        AuditEventType::Stake,
        xlm,
        permissions::STAKER,
        StateSnapshot::empty(),
        StateSnapshot::empty(),
        Symbol::new("ok"),
        String::from(""),
    );
    let _ = AuditContract::log_event(
        &mut env,
        s,
        AuditEventType::Stake,
        usdc,
        permissions::STAKER,
        StateSnapshot::empty(),
        StateSnapshot::empty(),
        Symbol::new("ok"),
        String::from(""),
    );
    let only_xlm = AuditContract::query(&env, &LogQuery::new(10).portfolio(xlm));
    assert_eq!(only_xlm.len(), 1);
    assert_eq!(only_xlm[0].portfolio, xlm);
}

#[test]
fn test_query_limit_caps_results() {
    let (mut env, _admin) = setup();
    let s = staker(&mut env);
    let a = asset();
    for _ in 0..10 {
        let _ = AuditContract::log_event(
            &mut env,
            s,
            AuditEventType::Stake,
            a,
            permissions::STAKER,
            StateSnapshot::empty(),
            StateSnapshot::empty(),
            Symbol::new("ok"),
            String::from(""),
        );
    }
    let res = AuditContract::query(&env, &LogQuery::new(3));
    assert_eq!(res.len(), 3);
}

#[test]
fn test_query_range_by_timestamp() {
    let (mut env, _admin) = setup();
    let s = staker(&mut env);
    let a = asset();
    for i in 0..5u64 {
        env.timestamp = 100 + i * 10;
        let _ = AuditContract::log_event(
            &mut env,
            s,
            AuditEventType::Stake,
            a,
            permissions::STAKER,
            StateSnapshot::empty(),
            StateSnapshot::empty(),
            Symbol::new("ok"),
            String::from(""),
        );
    }
    let q = LogQuery::new(10).from_ts(110).to_ts(120);
    let res = AuditContract::query(&env, &q);
    assert_eq!(res.len(), 2, "expected only 110 and 120 entries");
    assert_eq!(res[0].timestamp, 110);
    assert_eq!(res[1].timestamp, 120);
}

// Chain integrity

#[test]
fn test_chain_links_correctly() {
    let (mut env, _admin) = setup();
    let s = staker(&mut env);
    let a = asset();
    let _ = AuditContract::log_event(
        &mut env,
        s,
        AuditEventType::Stake,
        a,
        permissions::STAKER,
        StateSnapshot::empty(),
        StateSnapshot::empty(),
        Symbol::new("ok"),
        String::from("first"),
    );
    let head = AuditContract::integrity_head(&env);
    let expected_payload = entry_payload(
        1,
        env.timestamp,
        AuditEventType::Stake.code(),
        permissions::STAKER,
        s,
        a,
        Symbol::new("ok"),
        &String::from("first"),
        &StateSnapshot::empty(),
        &StateSnapshot::empty(),
    );
    let expected = first_chain_hash(&expected_payload);
    assert_eq!(head, expected);
}

#[test]
fn test_full_recompute_integrity_returns_true_for_untampered_chain() {
    let (mut env, _admin) = setup();
    let s = staker(&mut env);
    let a = asset();
    for _ in 0..3 {
        let _ = AuditContract::log_event(
            &mut env,
            s,
            AuditEventType::Stake,
            a,
            permissions::STAKER,
            StateSnapshot::empty(),
            StateSnapshot::empty(),
            Symbol::new("ok"),
            String::from(""),
        );
    }
    assert!(AuditContract::full_recompute_integrity(&env));
}

#[test]
fn test_verify_integrity_stored_head() {
    let (mut env, _admin) = setup();
    let s = staker(&mut env);
    let a = asset();
    let _ = AuditContract::log_event(
        &mut env,
        s,
        AuditEventType::Stake,
        a,
        permissions::STAKER,
        StateSnapshot::empty(),
        StateSnapshot::empty(),
        Symbol::new("ok"),
        String::from(""),
    );
    let head = AuditContract::integrity_head(&env);
    assert!(AuditContract::verify_integrity(&env, head));
    let bogus = Word32::from_bytes(&[0u8; 32]);
    assert!(!AuditContract::verify_integrity(&env, bogus));
}

// Retention

#[test]
fn test_prune_old_enforces_max_entries() {
    let (mut env, admin) = setup();
    let s = staker(&mut env);
    let a = asset();
    for _ in 0..5 {
        let _ = AuditContract::log_event(
            &mut env,
            s,
            AuditEventType::Stake,
            a,
            permissions::STAKER,
            StateSnapshot::empty(),
            StateSnapshot::empty(),
            Symbol::new("ok"),
            String::from(""),
        );
    }
    let policy = RetentionPolicy {
        max_entries: 3,
        max_age_seconds: 0,
    };
    AuditContract::set_retention_policy(&mut env, admin, policy).unwrap();
    let pruned = AuditContract::prune_old(&mut env, admin).unwrap();
    assert_eq!(pruned, 2);
    let res = AuditContract::query(&env, &LogQuery::new(10));
    assert_eq!(res.len(), 3);
}

#[test]
fn test_prune_old_admin_only() {
    let (mut env, admin) = setup();
    let s = staker(&mut env);
    let a = asset();
    let _ = AuditContract::log_event(
        &mut env,
        s,
        AuditEventType::Stake,
        a,
        permissions::STAKER,
        StateSnapshot::empty(),
        StateSnapshot::empty(),
        Symbol::new("ok"),
        String::from(""),
    );
    let policy = RetentionPolicy {
        max_entries: 1,
        max_age_seconds: 0,
    };
    AuditContract::set_retention_policy(&mut env, admin, policy).unwrap();
    let non_admin = address(&mut env);
    assert!(AuditContract::prune_old(&mut env, non_admin).is_err());
}

#[test]
fn test_set_retention_policy_unbounded_default() {
    let (env, _admin) = setup();
    let p = AuditContract::get_retention_policy(&env);
    assert!(p.is_unbounded());
}

#[test]
fn test_export_jsonl_returns_one_per_entry() {
    let (mut env, _admin) = setup();
    let s = staker(&mut env);
    let a = asset();
    let _ = AuditContract::log_event(
        &mut env,
        s,
        AuditEventType::Stake,
        a,
        permissions::STAKER,
        StateSnapshot::empty(),
        StateSnapshot::empty(),
        Symbol::new("ok"),
        String::from("deposit"),
    );
    let rows = AuditContract::export_jsonl(&env, &LogQuery::new(10));
    assert_eq!(rows.len(), 1);
    let row = text(&rows[0]);
    assert!(row.contains("\"seq\":1"));
    assert!(row.contains("\"event_type\":\"Stake\""));
    assert!(row.contains("ok"));
    assert!(row.contains("\"detail\":\"deposit\""));
}

#[test]
fn test_export_csv_header_and_rows() {
    let (mut env, _admin) = setup();
    let s = staker(&mut env);
    let a = asset();
    let _ = AuditContract::log_event(
        &mut env,
        s,
        AuditEventType::Stake,
        a,
        permissions::STAKER,
        StateSnapshot::empty(),
        StateSnapshot::empty(),
        Symbol::new("ok"),
        String::from("deposit"),
    );
    let rows = AuditContract::export_csv(&env, &LogQuery::new(10));
    assert_eq!(rows.len(), 2);
    let header_str = text(&rows[0]);
    assert_eq!(header_str, CSV_HEADER);

    let body = text(&rows[1]);
    assert!(body.contains("Stake"));
    assert!(body.contains("ok"));
    assert!(body.contains("deposit"));
}

#[test]
fn test_export_csv_escapes_special_characters() {
    let (mut env, _admin) = setup();
    let s = staker(&mut env);
    let a = asset();
    let _ = AuditContract::log_event(
        &mut env,
        s,
        AuditEventType::Stake,
        a,
        permissions::STAKER,
        StateSnapshot::empty(),
        StateSnapshot::empty(),
        Symbol::new("ok"),
        String::from("comma,with\"quotes"),
    );
    let rows = AuditContract::export_csv(&env, &LogQuery::new(10));
    let body = text(&rows[1]);
    // Field should be wrapped in quotes because it contains a comma.
    assert!(body.contains("\"comma,with\"\"quotes\""));
}

// Outcome filtering

#[test]
fn test_query_filters_by_outcome() {
    let (mut env, _admin) = setup();
    let s = staker(&mut env);
    let a = asset();
    let _ = AuditContract::log_event(
        &mut env,
        s,
        AuditEventType::Stake,
        a,
        permissions::STAKER,
        StateSnapshot::empty(),
        StateSnapshot::empty(),
        Symbol::new("ok"),
        String::from(""),
    );
    let _ = AuditContract::log_event(
        &mut env,
        s,
        AuditEventType::Stake,
        a,
        permissions::STAKER,
        StateSnapshot::empty(),
        StateSnapshot::empty(),
        Symbol::new("fail"),
        String::from(""),
    );
    let ok_entries = AuditContract::query(&env, &LogQuery::new(10).outcome(Symbol::new("ok")));
    assert_eq!(ok_entries.len(), 1);
    assert_eq!(ok_entries[0].outcome, Symbol::new("ok"));
}

// New event types

#[test]
fn test_new_event_types_logging() {
    let (mut env, _admin) = setup();
    let s = staker(&mut env);
    let a = asset();

    // Test PortfolioCreated
    let seq = AuditContract::log_event(
        &mut env,
        s,
        AuditEventType::PortfolioCreated,
        a,
        permissions::ADMIN,
        StateSnapshot::empty(),
        happy_snapshot(Symbol::new("val"), 100),
        Symbol::new("ok"),
        String::from("created"),
    );
    assert_eq!(seq, 1);

    // Test GovernanceProposal
    let seq = AuditContract::log_event(
        &mut env,
        s,
        AuditEventType::GovernanceProposal,
        Symbol::new("gov"),
        permissions::ADMIN,
        StateSnapshot::empty(),
        StateSnapshot::empty(),
        Symbol::new("ok"),
        String::from("submitted"),
    );
    assert_eq!(seq, 2);

    // Test TradeExecution
    let seq = AuditContract::log_event(
        &mut env,
        s,
        AuditEventType::TradeExecution,
        Symbol::new("XLM_USDC"),
        permissions::STAKER,
        StateSnapshot::empty(),
        StateSnapshot::empty(),
        Symbol::new("ok"),
        String::from("filled"),
    );
    assert_eq!(seq, 3);

    // Query by new event types
    let gov_entries =
        AuditContract::query(
            &env,
            &LogQuery::new(10).event_type(AuditEventType::GovernanceProposal),
        );
    assert_eq!(gov_entries.len(), 1);
    assert_eq!(
        gov_entries[0].event_type,
        AuditEventType::GovernanceProposal
    );

    let trade_entries =
        AuditContract::query(&env, &LogQuery::new(10).event_type(AuditEventType::TradeExecution));
    assert_eq!(trade_entries.len(), 1);
}

// Full export with state snapshots and hash

#[test]
fn test_export_jsonl_full_includes_hash() {
    let (mut env, _admin) = setup();
    let s = staker(&mut env);
    let a = asset();
    let _ = AuditContract::log_event(
        &mut env,
        s,
        AuditEventType::Stake,
        a,
        permissions::STAKER,
        happy_snapshot(a, 0),
        happy_snapshot(a, 100),
        Symbol::new("ok"),
        String::from("stake"),
    );
    let rows = AuditContract::export_jsonl_full(&env, &LogQuery::new(10));
    assert_eq!(rows.len(), 1);
    let row = text(&rows[0]);
    assert!(row.contains("\"hash\""));
    assert!(row.contains("\"state_before\""));
    assert!(row.contains("\"state_after\""));
}

#[test]
fn test_export_csv_full_includes_state() {
    let (mut env, _admin) = setup();
    let s = staker(&mut env);
    let a = asset();
    let _ = AuditContract::log_event(
        &mut env,
        s,
        AuditEventType::Stake,
        a,
        permissions::STAKER,
        happy_snapshot(a, 0),
        happy_snapshot(a, 500),
        Symbol::new("ok"),
        String::from("deposit"),
    );
    let rows = AuditContract::export_csv_full(&env, &LogQuery::new(10));
    assert_eq!(rows.len(), 2);
    let header = text(&rows[0]);
    assert!(header.contains("hash"));
    assert!(header.contains("state_before"));
    assert!(header.contains("state_after"));
    let body = text(&rows[1]);
    assert!(body.contains("XLM"));
}

// Signing / digest computation

#[test]
fn test_compute_export_digest() {
    let (mut env, _admin) = setup();
    let s = staker(&mut env);
    let a = asset();
    let _ = AuditContract::log_event(
        &mut env,
        s,
        AuditEventType::Stake,
        a,
        permissions::STAKER,
        StateSnapshot::empty(),
        StateSnapshot::empty(),
        Symbol::new("ok"),
        String::from("test"),
    );
    let digest = AuditContract::compute_export_digest(&env, &LogQuery::new(10));
    // Digest should be non-zero
    assert_ne!(digest, Word32::from_bytes(&[0u8; 32]));
}

#[test]
fn test_new_event_type_names() {
    let (mut env, _admin) = setup();
    let s = staker(&mut env);
    let a = asset();
    // Log each new event type
    let seq = AuditContract::log_event(
        &mut env,
        s,
        AuditEventType::PortfolioCreated,
        a,
        permissions::ADMIN,
        StateSnapshot::empty(),
        StateSnapshot::empty(),
        Symbol::new("ok"),
        String::from("PortfolioCreated"),
    );
    assert_eq!(seq, 1);
    let seq = AuditContract::log_event(
        &mut env,
        s,
        AuditEventType::RoleChange,
        a,
        permissions::ADMIN,
        StateSnapshot::empty(),
        StateSnapshot::empty(),
        Symbol::new("ok"),
        String::from("RoleChange"),
    );
    assert_eq!(seq, 2);
    let seq = AuditContract::log_event(
        &mut env,
        s,
        AuditEventType::YieldClaim,
        a,
        permissions::STAKER,
        StateSnapshot::empty(),
        StateSnapshot::empty(),
        Symbol::new("ok"),
        String::from("YieldClaim"),
    );
    assert_eq!(seq, 3);
    let seq = AuditContract::log_event(
        &mut env,
        s,
        AuditEventType::GovernanceProposal,
        a,
        permissions::ADMIN,
        StateSnapshot::empty(),
        StateSnapshot::empty(),
        Symbol::new("ok"),
        String::from("GovernanceProposal"),
    );
    assert_eq!(seq, 4);
    let seq = AuditContract::log_event(
        &mut env,
        s,
        AuditEventType::GovernanceVote,
        a,
        permissions::STAKER,
        StateSnapshot::empty(),
        StateSnapshot::empty(),
        Symbol::new("ok"),
        String::from("GovernanceVote"),
    );
    assert_eq!(seq, 5);
    let seq = AuditContract::log_event(
        &mut env,
        s,
        AuditEventType::TreasuryAction,
        a,
        permissions::ADMIN,
        StateSnapshot::empty(),
        StateSnapshot::empty(),
        Symbol::new("ok"),
        String::from("TreasuryAction"),
    );
    assert_eq!(seq, 6);
    let seq = AuditContract::log_event(
        &mut env,
        s,
        AuditEventType::EmergencyPause,
        a,
        permissions::ADMIN,
        StateSnapshot::empty(),
        StateSnapshot::empty(),
        Symbol::new("ok"),
        String::from("EmergencyPause"),
    );
    assert_eq!(seq, 7);
    let seq = AuditContract::log_event(
        &mut env,
        s,
        AuditEventType::TradeExecution,
        a,
        permissions::STAKER,
        StateSnapshot::empty(),
        StateSnapshot::empty(),
        Symbol::new("ok"),
        String::from("TradeExecution"),
    );
    assert_eq!(seq, 8);
    let seq = AuditContract::log_event(
        &mut env,
        s,
        AuditEventType::OrderPlaced,
        a,
        permissions::STAKER,
        StateSnapshot::empty(),
        StateSnapshot::empty(),
        Symbol::new("ok"),
        String::from("OrderPlaced"),
    );
    assert_eq!(seq, 9);
    let seq = AuditContract::log_event(
        &mut env,
        s,
        AuditEventType::OrderCancelled,
        a,
        permissions::STAKER,
        StateSnapshot::empty(),
        StateSnapshot::empty(),
        Symbol::new("ok"),
        String::from("OrderCancelled"),
    );
    assert_eq!(seq, 10);
    let seq = AuditContract::log_event(
        &mut env,
        s,
        AuditEventType::FeeCollection,
        a,
        permissions::ADMIN,
        StateSnapshot::empty(),
        StateSnapshot::empty(),
        Symbol::new("ok"),
        String::from("FeeCollection"),
    );
    assert_eq!(seq, 11);
    // Verify all logged
    let all = AuditContract::query(&env, &LogQuery::new(50));
    assert_eq!(all.len(), 11);
}

#[test]
fn test_log_event_with_full_state_snapshots() {
    let (mut env, _admin) = setup();
    let s = staker(&mut env);
    let mut before = StateSnapshot::empty();
    before.push(Symbol::new("XLM"), 1000);
    before.push(Symbol::new("USDC"), 5000);
    let mut after = StateSnapshot::empty();
    after.push(Symbol::new("XLM"), 800);
    after.push(Symbol::new("USDC"), 6000);
    let seq = AuditContract::log_event(
        &mut env,
        s,
        AuditEventType::Rebalance,
        Symbol::new("PORT1"),
        permissions::ADMIN,
        before,
        after,
        Symbol::new("ok"),
        String::from("rebalanced"),
    );
    assert_eq!(seq, 1);
    let entry = AuditContract::query(&env, &LogQuery::new(10)).remove(0);
    assert_eq!(entry.state_before.fields.len(), 2);
    assert_eq!(entry.state_after.fields.len(), 2);
    assert_eq!(entry.state_after.fields[0].value, 800);
    assert_eq!(entry.state_after.fields[1].value, 6000);
}
