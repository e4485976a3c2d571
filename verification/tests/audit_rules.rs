//! Hashes, the chain, tampering, retention and the bytes of exports.

use astraport::audit::checksum::{chain_hash, entry_payload, first_chain_hash};
use astraport::audit::contract::AuditContract;
use astraport::audit::export::{event_type_label, CSV_FULL_HEADER};
use astraport::audit::log_query::LogQuery;
use astraport::audit::permissions;
use astraport::audit::records::{AuditEventType, Error, RetentionPolicy, StateSnapshot};
use astraport::audit::signing::{
    compute_digest, serialize_entries, ExportError, SignatureClaim, SignedExport, Word64,
};
use astraport::audit::state::AuditEnv;
use astraport::base::address::Address;
use astraport::base::bytes::Word32;
use astraport::base::symbol::Symbol;
use astraport::emergency::contract::EmergencyControls;
use astraport::emergency::state::EmergencyEnv;

/// A new address that signs every call.
fn address(env: &mut AuditEnv) -> Address {
    let text = format!("G{:0>55}", env.auths.len() + 1);
    let made = Address::from_text(text.as_bytes());
    env.auths.push(made);
    made
}

fn setup() -> (AuditEnv, Address) {
    let mut env = AuditEnv::new(0);
    let admin = address(&mut env);
    AuditContract::initialize(&mut env, admin).unwrap();
    (env, admin)
}

fn snapshot(key: Symbol, value: i128) -> StateSnapshot {
    let mut s = StateSnapshot::empty();
    s.push(key, value);
    s
}

fn text(row: &Vec<u8>) -> String {
    String::from_utf8(row.clone()).unwrap()
}

/// Logs an event at the given time.
fn log(env: &mut AuditEnv, actor: Address, at: u64, detail: &str) -> u64 {
    env.timestamp = at;
    AuditContract::log_event(
        env,
        actor,
        AuditEventType::Deposit,
        Symbol::new("P1"),
        permissions::STAKER,
        snapshot(Symbol::new("XLM"), 1),
        snapshot(Symbol::new("XLM"), 2),
        Symbol::new("ok"),
        String::from(detail),
    )
}

/// A log with one event at each of the given times.
fn logged(times: &[u64]) -> (AuditEnv, Address) {
    let (mut env, admin) = setup();
    for at in times {
        log(&mut env, admin, *at, "event");
    }
    (env, admin)
}

fn hex(word: Word32) -> String {
    word.to_bytes().iter().map(|b| format!("{:02x}", b)).collect()
}

// Hashes

#[test]
fn hashes_are_sha256() {
    assert_eq!(
        hex(first_chain_hash(&b"abc".to_vec())),
        "365aa7d8f7f9402c4b9434502b4cc89ddb09fe50d7cd95b493b834c62d5a5370"
    );
    assert_eq!(
        hex(chain_hash(Word32::from_bytes(&[7; 32]), &b"abc".to_vec())),
        "77525b4491b1cdd015078c4a11afdb1106eccba29b32262bd4f3d8873dc3c3d0"
    );
    let (env, _admin) = setup();
    assert_eq!(
        hex(AuditContract::compute_export_digest(&env, &LogQuery::new(0))),
        "df3f619804a92fdb4057192dc43dd748ea778adc52bc498ce80524c014b81119"
    );
}

#[test]
fn long_details_are_hashed() {
    let (mut env, admin) = setup();
    let detail = "x".repeat(1_048_576 - 32 - 156 - 2 * 48);
    log(&mut env, admin, 1, &detail);
    assert!(AuditContract::full_recompute_integrity(&env));
}

#[test]
fn every_field_is_hashed() {
    let none = StateSnapshot::empty();
    let some = snapshot(Symbol::new("XLM"), -1);
    let who = Address::from_text(format!("G{:0>55}", 1).as_bytes());
    let other = Address::from_text(format!("G{:0>55}", 2).as_bytes());
    let a = Symbol::new("A");
    let b = Symbol::new("B");
    let text = String::from("text");
    let payloads = [
        entry_payload(1, 2, 3, 4, who, a, b, &text, &none, &none),
        entry_payload(2, 2, 3, 4, who, a, b, &text, &none, &none),
        entry_payload(1, 3, 3, 4, who, a, b, &text, &none, &none),
        entry_payload(1, 2, 4, 4, who, a, b, &text, &none, &none),
        entry_payload(1, 2, 3, 5, who, a, b, &text, &none, &none),
        entry_payload(1, 2, 3, 4, other, a, b, &text, &none, &none),
        entry_payload(1, 2, 3, 4, who, b, b, &text, &none, &none),
        entry_payload(1, 2, 3, 4, who, a, a, &text, &none, &none),
        entry_payload(1, 2, 3, 4, who, a, b, &String::from("texts"), &none, &none),
        entry_payload(1, 2, 3, 4, who, a, b, &text, &some, &none),
        entry_payload(1, 2, 3, 4, who, a, b, &text, &none, &some),
    ];
    assert_eq!(payloads[0].len(), 160);
    for i in 0..payloads.len() {
        for j in 0..i {
            assert_ne!(payloads[i], payloads[j]);
        }
    }
}

// The chain

#[test]
fn tampering_is_detected() {
    let (mut env, _admin) = logged(&[10, 20, 30]);
    assert!(AuditContract::full_recompute_integrity(&env));
    let head = AuditContract::integrity_head(&env);
    let mut entry = env.entries.get(2).unwrap().copy();
    entry.detail = String::from("forged");
    env.entries.set(2, entry);
    assert!(!AuditContract::full_recompute_integrity(&env));
    assert!(AuditContract::verify_integrity(&env, head));
    env.entries.remove(2);
    assert!(!AuditContract::full_recompute_integrity(&env));
}

#[test]
fn an_empty_log_is_intact() {
    let (env, _admin) = setup();
    assert_eq!(AuditContract::integrity_head(&env), Word32 { hi: 0, lo: 0 });
    assert!(AuditContract::full_recompute_integrity(&env));
}

#[test]
fn logging_appends_and_indexes() {
    let (mut env, admin) = logged(&[5]);
    let first = AuditContract::query(&env, &LogQuery::new(1)).remove(0);
    assert_eq!(log(&mut env, admin, 6, "more"), 2);
    let both = AuditContract::query(&env, &LogQuery::new(9));
    assert_eq!(both[0], first);
    assert_eq!(both[1].hash, AuditContract::integrity_head(&env));
    assert_eq!(AuditContract::bucket(250), 0);
    assert_eq!(AuditContract::bucket(251), 1);
    assert_eq!(env.by_actor.get((admin, 0)), Some(&vec![1, 2]));
    assert_eq!(env.by_type.get((AuditEventType::Deposit, 0)), Some(&vec![1, 2]));
}

// Retention

#[test]
fn pruning_by_age_and_number_keeps_the_chain() {
    let (mut env, admin) = logged(&[10, 20, 30, 40, 50]);
    env.timestamp = 60;
    let by_age = RetentionPolicy { max_entries: 0, max_age_seconds: 30 };
    AuditContract::set_retention_policy(&mut env, admin, by_age).unwrap();
    assert_eq!(AuditContract::prune_old(&mut env, admin), Ok(2));
    assert!(AuditContract::full_recompute_integrity(&env));
    let by_number = RetentionPolicy { max_entries: 1, max_age_seconds: 30 };
    AuditContract::set_retention_policy(&mut env, admin, by_number).unwrap();
    assert_eq!(AuditContract::prune_old(&mut env, admin), Ok(2));
    let left = AuditContract::query(&env, &LogQuery::new(9));
    assert_eq!(left.len(), 1);
    assert_eq!(left[0].seq, 5);
    assert_eq!(log(&mut env, admin, 61, "next"), 6);
    assert!(AuditContract::full_recompute_integrity(&env));
    env.timestamp = 1_000;
    assert_eq!(AuditContract::prune_old(&mut env, admin), Ok(2));
    assert_eq!(AuditContract::prune_old(&mut env, admin), Ok(0));
    assert_eq!(env.entry_count, 0);
}

#[test]
fn pruning_is_refused_without_a_policy_or_the_right() {
    let mut env = AuditEnv::new(0);
    let admin = address(&mut env);
    let other = address(&mut env);
    assert_eq!(AuditContract::get_admin(&env), Err(Error::NotInitialized));
    assert_eq!(AuditContract::prune_old(&mut env, admin), Err(Error::NotInitialized));
    AuditContract::initialize(&mut env, admin).unwrap();
    assert_eq!(AuditContract::initialize(&mut env, admin), Err(Error::AlreadyInitialized));
    assert_eq!(AuditContract::prune_old(&mut env, other), Err(Error::Unauthorized));
    assert_eq!(AuditContract::prune_old(&mut env, admin), Err(Error::NoRetentionPolicy));
}

// Queries

#[test]
fn queries_combine_their_filters() {
    let (mut env, admin) = logged(&[10, 20, 30]);
    let other = address(&mut env);
    log(&mut env, other, 40, "other");
    let by_actor = AuditContract::query(&env, &LogQuery::new(9).actor(other));
    assert_eq!(by_actor.len(), 1);
    assert!(by_actor.iter().all(|e| LogQuery::new(9).actor(other).matches(e)));
    let narrow = LogQuery::new(9).actor(admin).from_ts(20).limit(1);
    let found = AuditContract::query(&env, &narrow);
    assert_eq!(found.len(), 1);
    assert_eq!(found[0].seq, 2);
    for _ in 0..60 {
        log(&mut env, admin, 50, "many");
    }
    assert_eq!(AuditContract::query(&env, &LogQuery::new(0)).len(), 50);
}

// Exports

#[test]
fn json_rows_are_exact() {
    let (mut env, _admin) = setup();
    let actor = Address::from_text(format!("G{:0>55}", 42).as_bytes());
    log(&mut env, actor, 7, "a \"b\" \\ c\n");
    let rows = AuditContract::export_jsonl(&env, &LogQuery::new(9));
    let expected = format!(
        "{{\"seq\":1,\"timestamp\":7,\"event_type\":\"Deposit\",\"actor\":\"G{:0>55}\",\
         \"permissions\":{},\"portfolio\":\"P1\",\"outcome\":\"ok\",\
         \"detail\":\"a \\\"b\\\" \\\\ c\\u000a\"}}",
        42,
        permissions::STAKER
    );
    assert_eq!(text(&rows[0]), expected);
    let full = text(&AuditContract::export_jsonl_full(&env, &LogQuery::new(9))[0]);
    let head = hex(AuditContract::integrity_head(&env));
    assert!(full.ends_with(&format!(
        ",\"state_before\":[{{\"key\":\"XLM\",\"value\":1}}],\
         \"state_after\":[{{\"key\":\"XLM\",\"value\":2}}],\"hash\":\"{}\"}}",
        head
    )));
}

#[test]
fn csv_rows_are_exact() {
    let (mut env, _admin) = setup();
    let actor = Address::from_text(format!("G{:0>55}", 42).as_bytes());
    log(&mut env, actor, 7, "plain");
    let rows = AuditContract::export_csv_full(&env, &LogQuery::new(9));
    assert_eq!(text(&rows[0]), CSV_FULL_HEADER);
    let head = hex(AuditContract::integrity_head(&env));
    assert_eq!(
        text(&rows[1]),
        format!(
            "1,7,Deposit,G{:0>55},{},P1,ok,plain,XLM=1,XLM=2,{}",
            42,
            permissions::STAKER,
            head
        )
    );
    assert_eq!(event_type_label(AuditEventType::Custom), "Custom");
}

#[test]
fn exports_are_checked_before_their_signature() {
    let (env, _admin) = logged(&[10, 20]);
    let entries = AuditContract::query(&env, &LogQuery::new(9));
    assert_eq!(serialize_entries(&entries).len(), 4 + 2 * 56);
    let digest = compute_digest(&entries);
    assert_eq!(digest, AuditContract::compute_export_digest(&env, &LogQuery::new(9)));
    let signer = Word32::from_bytes(&[1; 32]);
    let signature = Word64 { first: signer, second: digest };
    let mut export = SignedExport { entries, digest, signature, signer };
    assert_eq!(
        AuditContract::verify_export(&export, signer),
        Ok(SignatureClaim { public_key: signer, message: digest, signature })
    );
    assert_eq!(
        AuditContract::verify_export(&export, digest),
        Err(ExportError::SignerMismatch)
    );
    export.entries[0].timestamp = 11;
    assert_eq!(
        AuditContract::verify_export(&export, signer),
        Err(ExportError::DigestMismatch)
    );
}

// Calls from other contracts

#[test]
fn a_queued_call_becomes_an_entry() {
    let mut controls = EmergencyEnv::new(0);
    let admin = Address::from_text(format!("G{:0>55}", 5).as_bytes());
    controls.auths.push(admin);
    EmergencyControls::initialize(&mut controls, admin).unwrap();
    EmergencyControls::set_audit_sink(&mut controls, admin).unwrap();
    EmergencyControls::pause(&mut controls, admin, Symbol::new("fire")).unwrap();
    let (mut env, _admin) = setup();
    env.timestamp = 77;
    let call = controls.audit_calls.remove(0);
    assert_eq!(call.deliver(&mut env), 1);
    let entry = AuditContract::query(&env, &LogQuery::new(1)).remove(0);
    assert_eq!(entry.actor, admin);
    assert_eq!(entry.event_type, AuditEventType::EmergencyPause);
    assert_eq!(entry.detail, "pause_activated");
    assert_eq!(entry.timestamp, 77);
}

#[test]
fn an_emptied_log_has_no_head_to_match() {
    let (mut env, admin) = logged(&[0]);
    assert!(AuditContract::verify_integrity(&env, AuditContract::integrity_head(&env)));
    let policy = RetentionPolicy { max_entries: 0, max_age_seconds: 10 };
    AuditContract::set_retention_policy(&mut env, admin, policy).unwrap();
    env.timestamp = 100;
    assert_eq!(AuditContract::prune_old(&mut env, admin), Ok(1));
    assert!(!AuditContract::verify_integrity(&env, Word32 { hi: 0, lo: 0 }));
    assert!(AuditContract::full_recompute_integrity(&env));
}

#[test]
fn initializing_keeps_what_was_logged() {
    let mut env = AuditEnv::new(0);
    let admin = address(&mut env);
    assert_eq!(log(&mut env, admin, 1, "before"), 1);
    AuditContract::initialize(&mut env, admin).unwrap();
    assert_eq!(log(&mut env, admin, 2, "after"), 2);
    assert_eq!(AuditContract::query(&env, &LogQuery::new(9)).len(), 2);
    assert!(AuditContract::full_recompute_integrity(&env));
}

#[test]
fn a_deleted_entry_is_missed() {
    let (mut env, _admin) = logged(&[10, 20, 30]);
    env.entries.remove(2);
    assert!(!AuditContract::full_recompute_integrity(&env));
}
