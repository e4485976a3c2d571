//! The bytes of an entry and the hash chain over them.

use vstd::prelude::*;
use vstd::string::*;
use vstd::utf8::encode_utf8;

use crate::audit::hashing::{sha256, sha256_of, MAX_HASH_INPUT};
use crate::audit::records::{
    chain_origin, make_chain_origin, AuditLogView, FieldEntry, StateSnapshot,
};
use crate::base::address::Address;
use crate::base::bytes::{append_be, be_bytes, lemma_be_bytes_len, lemma_word_bytes, Word32};
use crate::base::symbol::Symbol;

verus! {

/// The bytes of a snapshot field: the key, then the value in two's complement.
pub open spec fn field_bytes(f: FieldEntry) -> Seq<u8> {
    f.key.word.bytes() + be_bytes((f.value as u128) as nat, 16)
}

/// The bytes of the first `n` fields.
pub open spec fn fields_bytes(fields: Seq<FieldEntry>, n: int) -> Seq<u8>
    decreases n,
{
    if n <= 0 {
        Seq::empty()
    } else {
        fields_bytes(fields, n - 1) + field_bytes(fields[n - 1])
    }
}

/// The bytes of a snapshot: the number of fields, then the fields.
pub open spec fn snapshot_bytes(fields: Seq<FieldEntry>) -> Seq<u8> {
    be_bytes(fields.len(), 4) + fields_bytes(fields, fields.len() as int)
}

/// The part of an entry's payload that has a fixed length.
pub open spec fn fixed_bytes(
    seq: u64,
    timestamp: u64,
    event_type: u32,
    permissions: u32,
    actor: Address,
    portfolio: Symbol,
    outcome: Symbol,
) -> Seq<u8> {
    be_bytes(seq as nat, 8) + be_bytes(timestamp as nat, 8) + be_bytes(event_type as nat, 4)
        + be_bytes(permissions as nat, 4) + actor.text() + portfolio.word.bytes()
        + outcome.word.bytes()
}

/// The bytes that an entry's hash covers: all fields but the hash, numbers
/// most significant byte first, texts and lists behind their length.
pub open spec fn payload_of(
    seq: u64,
    timestamp: u64,
    event_type: u32,
    permissions: u32,
    actor: Address,
    portfolio: Symbol,
    outcome: Symbol,
    detail: Seq<char>,
    before: Seq<FieldEntry>,
    after: Seq<FieldEntry>,
) -> Seq<u8> {
    fixed_bytes(seq, timestamp, event_type, permissions, actor, portfolio, outcome) + be_bytes(
        encode_utf8(detail).len(),
        4,
    ) + encode_utf8(detail) + snapshot_bytes(before) + snapshot_bytes(after)
}

/// The length of an entry's payload.
pub open spec fn payload_len(
    detail: Seq<char>,
    before: Seq<FieldEntry>,
    after: Seq<FieldEntry>,
) -> nat {
    156 + encode_utf8(detail).len() + 48 * before.len() + 48 * after.len()
}

/// The payload of an entry.
pub open spec fn entry_bytes(e: AuditLogView) -> Seq<u8> {
    payload_of(
        e.seq,
        e.timestamp,
        e.event_type.spec_code(),
        e.permissions,
        e.actor,
        e.portfolio,
        e.outcome,
        e.detail,
        e.state_before,
        e.state_after,
    )
}

/// An entry whose payload can be hashed.
pub open spec fn hashable(
    detail: Seq<char>,
    before: Seq<FieldEntry>,
    after: Seq<FieldEntry>,
) -> bool {
    32 + payload_len(detail, before, after) <= MAX_HASH_INPUT
}

pub proof fn lemma_fields_len(fields: Seq<FieldEntry>, n: int)
    requires
        0 <= n <= fields.len(),
    ensures
        fields_bytes(fields, n).len() == 48 * n,
    decreases n,
{
    if n > 0 {
        lemma_fields_len(fields, n - 1);
        lemma_word_bytes(fields[n - 1].key.word);
        lemma_be_bytes_len((fields[n - 1].value as u128) as nat, 16);
    }
}

pub proof fn lemma_text_len(a: Address)
    ensures
        a.text().len() == 56,
{
    lemma_be_bytes_len(a.a as nat, 14);
    lemma_be_bytes_len(a.b as nat, 14);
    lemma_be_bytes_len(a.c as nat, 14);
    lemma_be_bytes_len(a.d as nat, 14);
}

/// The payload has the length that is told.
pub proof fn lemma_payload_len(
    seq: u64,
    timestamp: u64,
    event_type: u32,
    permissions: u32,
    actor: Address,
    portfolio: Symbol,
    outcome: Symbol,
    detail: Seq<char>,
    before: Seq<FieldEntry>,
    after: Seq<FieldEntry>,
)
    ensures
        payload_of(
            seq,
            timestamp,
            event_type,
            permissions,
            actor,
            portfolio,
            outcome,
            detail,
            before,
            after,
        ).len() == payload_len(detail, before, after),
        fixed_bytes(seq, timestamp, event_type, permissions, actor, portfolio, outcome).len() == 144,
{
    lemma_be_bytes_len(seq as nat, 8);
    lemma_be_bytes_len(timestamp as nat, 8);
    lemma_be_bytes_len(event_type as nat, 4);
    lemma_be_bytes_len(permissions as nat, 4);
    lemma_text_len(actor);
    lemma_word_bytes(portfolio.word);
    lemma_word_bytes(outcome.word);
    lemma_be_bytes_len(encode_utf8(detail).len(), 4);
    lemma_be_bytes_len(before.len(), 4);
    lemma_be_bytes_len(after.len(), 4);
    lemma_fields_len(before, before.len() as int);
    lemma_fields_len(after, after.len() as int);
}

fn append_all(out: &mut Vec<u8>, more: &Vec<u8>)
    ensures
        final(out)@ == old(out)@ + more@,
{
    let mut i: usize = 0;
    assert(out@ =~= old(out)@ + more@.take(0));
    while i < more.len()
        invariant
            i <= more@.len(),
            out@ == old(out)@ + more@.take(i as int),
        decreases more@.len() - i,
    {
        out.push(more[i]);
        i += 1;
        assert(out@ =~= old(out)@ + more@.take(i as int));
    }
    assert(more@.take(i as int) =~= more@);
}

fn append_snapshot(out: &mut Vec<u8>, s: &StateSnapshot)
    requires
        s@.len() <= u32::MAX,
    ensures
        final(out)@ == old(out)@ + snapshot_bytes(s@),
{
    append_be(out, s.fields.len() as u128, 4);
    let ghost head = out@;
    let mut i: usize = 0;
    assert(out@ =~= head + fields_bytes(s@, 0));
    while i < s.fields.len()
        invariant
            i <= s@.len(),
            out@ == head + fields_bytes(s@, i as int),
        decreases s@.len() - i,
    {
        let f: FieldEntry = s.fields[i];
        let key: Vec<u8> = f.key.word.to_bytes();
        append_all(out, &key);
        append_be(out, #[verifier::truncate] (f.value as u128), 16);
        i += 1;
        assert(out@ =~= head + fields_bytes(s@, i as int));
    }
    assert(out@ =~= old(out)@ + snapshot_bytes(s@));
}

/// The bytes that an entry's hash covers.
pub fn entry_payload(
    seq: u64,
    timestamp: u64,
    event_type: u32,
    permissions: u32,
    actor: Address,
    portfolio: Symbol,
    outcome: Symbol,
    detail: &String,
    state_before: &StateSnapshot,
    state_after: &StateSnapshot,
) -> (r: Vec<u8>)
    requires
        hashable(detail@, state_before@, state_after@),
    ensures
        r@ == payload_of(
            seq,
            timestamp,
            event_type,
            permissions,
            actor,
            portfolio,
            outcome,
            detail@,
            state_before@,
            state_after@,
        ),
        r@.len() == payload_len(detail@, state_before@, state_after@),
{
    let mut out: Vec<u8> = Vec::new();
    append_be(&mut out, seq as u128, 8);
    append_be(&mut out, timestamp as u128, 8);
    append_be(&mut out, event_type as u128, 4);
    append_be(&mut out, permissions as u128, 4);
    let actor_text: Vec<u8> = actor.to_text();
    append_all(&mut out, &actor_text);
    let portfolio_bytes: Vec<u8> = portfolio.word.to_bytes();
    append_all(&mut out, &portfolio_bytes);
    let outcome_bytes: Vec<u8> = outcome.word.to_bytes();
    append_all(&mut out, &outcome_bytes);
    assert(out@ =~= fixed_bytes(
        seq,
        timestamp,
        event_type,
        permissions,
        actor,
        portfolio,
        outcome,
    ));
    let detail_bytes: Vec<u8> = detail.as_str().as_bytes_vec();
    append_be(&mut out, detail_bytes.len() as u128, 4);
    append_all(&mut out, &detail_bytes);
    append_snapshot(&mut out, state_before);
    append_snapshot(&mut out, state_after);
    proof {
        assert(out@ =~= payload_of(
            seq,
            timestamp,
            event_type,
            permissions,
            actor,
            portfolio,
            outcome,
            detail@,
            state_before@,
            state_after@,
        ));
        lemma_payload_len(
            seq,
            timestamp,
            event_type,
            permissions,
            actor,
            portfolio,
            outcome,
            detail@,
            state_before@,
            state_after@,
        );
    }
    out
}

/// The hash of a payload in a chain whose head is `prev`.
pub open spec fn link(prev: Word32, payload: Seq<u8>) -> Word32 {
    Word32::of(sha256_of(prev.bytes() + payload))
}

/// The SHA-256 hash of the previous hash followed by the payload.
pub fn chain_hash(prev: Word32, payload: &Vec<u8>) -> (h: Word32)
    requires
        32 + payload@.len() <= MAX_HASH_INPUT,
    ensures
        h == link(prev, payload@),
{
    let mut data: Vec<u8> = prev.to_bytes();
    append_all(&mut data, payload);
    let digest: [u8; 32] = sha256(data.as_slice());
    Word32::from_bytes(&digest)
}

/// The hash of the first entry of a chain.
pub fn first_chain_hash(payload: &Vec<u8>) -> (h: Word32)
    requires
        32 + payload@.len() <= MAX_HASH_INPUT,
    ensures
        h == link(chain_origin(), payload@),
{
    chain_hash(make_chain_origin(), payload)
}

} // verus!
