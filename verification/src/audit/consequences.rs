//! What the calls do, in terms of the stored entries, the policy, the time and
//! what is given.

use vstd::prelude::*;
use vstd::utf8::encode_utf8;

use crate::audit::checksum::entry_bytes;
use crate::audit::contract::{
    accepted, age_floor, bucket_of, found, initialized, intact, logged, policy_set,
    pruned, EventData,
};
use crate::audit::hashing::sha256_of;
use crate::audit::laws::lemma_floors;
use crate::audit::log_query::LogQuery;
use crate::audit::records::{AuditLogView, Error, RetentionPolicy};
use crate::audit::signing::{
    digest_of, entries_bytes, export_check, ExportError, Word64,
};
use crate::audit::state::{chain_over, AuditState};
use crate::base::address::Address;
use crate::base::bytes::{be_bytes, lemma_be_bytes_len, Word32};
use crate::base::symbol::{sym, Symbol};

verus! {

// ---------------------------------------------------------------------------
// Roles and policy
// ---------------------------------------------------------------------------

/// The first to initialize becomes the administrator, who alone sets the
/// retention policy: it is what was given.
pub proof fn the_administrator_sets_the_policy(
    s: AuditState,
    a: Address,
    policy: RetentionPolicy,
)
    ensures
        s.admin is None ==> initialized(s, a) == Ok::<_, Error>(
            (AuditState { admin: Some(a), ..s }, sym("ok"@)),
        ),
        s.admin is Some ==> initialized(s, a) == Err::<(AuditState, Symbol), _>(
            Error::AlreadyInitialized,
        ),
        s.admin == Some(a) ==> policy_set(s, a, policy) == Ok::<_, Error>(
            (AuditState { policy, ..s }, sym("ok"@)),
        ),
        s.admin is Some && s.admin != Some(a) ==> policy_set(s, a, policy) == Err::<
            (AuditState, Symbol),
            _,
        >(Error::Unauthorized),
        s.admin is None ==> policy_set(s, a, policy) == Err::<(AuditState, Symbol), _>(
            Error::NotInitialized,
        ),
{
}

/// Before any call there is no administrator and no entry, and everything is
/// kept; the first entry gets the number one.
pub proof fn nothing_is_there_at_first(now: u64)
    ensures
        ({
            let s = AuditState::fresh(now);
            &&& s.timestamp == now
            &&& s.admin is None
            &&& s.policy.max_entries == 0
            &&& s.policy.max_age_seconds == 0
            &&& s.next_seq == 0
            &&& s.first_seq == 1
            &&& s.entry_count == 0
            &&& s.head is None
            &&& s.entries == Map::<u64, AuditLogView>::empty()
        }),
{
}

// ---------------------------------------------------------------------------
// Logging
// ---------------------------------------------------------------------------

/// An event becomes the entry after the last, with the time of the ledger and
/// everything that was told, and with the hash of the head before it and its
/// payload: of zeros in place of a head where it is the first.
pub proof fn events_are_logged_whole(s: AuditState, d: EventData)
    requires
        s.wf(),
        s.next_seq + 1 < u64::MAX,
    ensures
        ({
            let t = logged(s, d);
            let seq = (s.next_seq + 1) as u64;
            let e = t.entries[seq];
            &&& t.entries == s.entries.insert(seq, e)
            &&& e.seq == s.next_seq + 1
            &&& e.timestamp == s.timestamp
            &&& e.event_type == d.event_type
            &&& e.actor == d.actor
            &&& e.permissions == d.permissions
            &&& e.portfolio == d.portfolio
            &&& e.state_before == d.state_before
            &&& e.state_after == d.state_after
            &&& e.outcome == d.outcome
            &&& e.detail == d.detail
            &&& s.next_seq > 0 && s.head is Some ==> e.hash == Word32::of(
                sha256_of(s.head->Some_0.bytes() + entry_bytes(e)),
            )
            &&& s.next_seq == 0 || s.head is None ==> e.hash == Word32::of(
                sha256_of((Word32 { hi: 0, lo: 0 }).bytes() + entry_bytes(e)),
            )
            &&& t.head == Some(e.hash)
            &&& t.next_seq == s.next_seq + 1
            &&& t.entry_count == s.entry_count + 1
            &&& t == AuditState {
                entries: t.entries,
                next_seq: t.next_seq,
                head: t.head,
                entry_count: t.entry_count,
                by_type: t.by_type,
                by_actor: t.by_actor,
                by_portfolio: t.by_portfolio,
                by_outcome: t.by_outcome,
                ..s
            }
        }),
{
}

/// The index is the one before with one more entry in one bucket.
pub open spec fn has_one_more<K>(
    old: Map<K, Seq<u64>>,
    new: Map<K, Seq<u64>>,
    k: K,
    seq: u64,
) -> bool {
    &&& new.contains_key(k)
    &&& old.contains_key(k) ==> new[k] == old[k].push(seq)
    &&& !old.contains_key(k) ==> new[k] == seq![seq]
    &&& new == old.insert(k, new[k])
}

/// Every index learns of a new entry, in the bucket of its sequence ID: there
/// is one for each two hundred and fifty entries.
pub proof fn entries_are_indexed(s: AuditState, d: EventData, bucket: u32)
    requires
        s.wf(),
        s.next_seq + 1 < u64::MAX,
        250 * bucket <= s.next_seq < 250 * bucket + 250,
    ensures
        ({
            let t = logged(s, d);
            let seq = (s.next_seq + 1) as u64;
            &&& has_one_more(s.by_type, t.by_type, (d.event_type, bucket), seq)
            &&& has_one_more(s.by_actor, t.by_actor, (d.actor, bucket), seq)
            &&& has_one_more(s.by_portfolio, t.by_portfolio, (d.portfolio, bucket), seq)
            &&& has_one_more(s.by_outcome, t.by_outcome, (d.outcome, bucket), seq)
        }),
{
    let seq = (s.next_seq + 1) as u64;
    assert(bucket_of(seq) == bucket);
    assert(Seq::<u64>::empty().push(seq) =~= seq![seq]);
}

proof fn lemma_word_len(w: Word32)
    ensures
        w.bytes().len() == 32,
{
    lemma_be_bytes_len(w.hi as nat, 16);
    lemma_be_bytes_len(w.lo as nat, 16);
}

/// The payload that a hash covers holds every field of the entry, in this
/// order: sequence ID, time, event type, permissions, actor, portfolio,
/// outcome, detail and the two snapshots, each number most significant byte
/// first.
pub proof fn payloads_hold_the_fields_in_order(e: AuditLogView)
    ensures
        ({
            let p = entry_bytes(e);
            let detail = encode_utf8(e.detail);
            let n = detail.len() as int;
            &&& p.subrange(0, 8) == be_bytes(e.seq as nat, 8)
            &&& p.subrange(8, 16) == be_bytes(e.timestamp as nat, 8)
            &&& p.subrange(16, 20) == be_bytes(e.event_type.spec_code() as nat, 4)
            &&& p.subrange(20, 24) == be_bytes(e.permissions as nat, 4)
            &&& p.subrange(24, 80) == e.actor.text()
            &&& p.subrange(80, 112) == e.portfolio.word.bytes()
            &&& p.subrange(112, 144) == e.outcome.word.bytes()
            &&& p.subrange(144, 148) == be_bytes(n as nat, 4)
            &&& p.subrange(148, 148 + n) == detail
            &&& p.subrange(148 + n, 152 + n) == be_bytes(e.state_before.len(), 4)
        }),
{
    lemma_be_bytes_len(e.seq as nat, 8);
    lemma_be_bytes_len(e.timestamp as nat, 8);
    lemma_be_bytes_len(e.event_type.spec_code() as nat, 4);
    lemma_be_bytes_len(e.permissions as nat, 4);
    let n = encode_utf8(e.detail).len();
    lemma_be_bytes_len(n, 4);
    lemma_be_bytes_len(e.state_before.len(), 4);
    lemma_word_len(e.portfolio.word);
    lemma_word_len(e.outcome.word);
    lemma_be_bytes_len(e.actor.a as nat, 14);
    lemma_be_bytes_len(e.actor.b as nat, 14);
    lemma_be_bytes_len(e.actor.c as nat, 14);
    lemma_be_bytes_len(e.actor.d as nat, 14);
    let p = entry_bytes(e);
    assert(p.subrange(0, 8) =~= be_bytes(e.seq as nat, 8));
    assert(p.subrange(8, 16) =~= be_bytes(e.timestamp as nat, 8));
    assert(p.subrange(16, 20) =~= be_bytes(e.event_type.spec_code() as nat, 4));
    assert(p.subrange(20, 24) =~= be_bytes(e.permissions as nat, 4));
    assert(p.subrange(24, 80) =~= e.actor.text());
    assert(p.subrange(80, 112) =~= e.portfolio.word.bytes());
    assert(p.subrange(112, 144) =~= e.outcome.word.bytes());
}

// ---------------------------------------------------------------------------
// Queries
// ---------------------------------------------------------------------------

/// The entry is one that the query asks for: of the time from the first bound
/// to the second, both within, where they are not zero, and with the type,
/// actor, portfolio and outcome that are asked for, where they are.
pub open spec fn is_asked_for(q: LogQuery, e: AuditLogView) -> bool {
    &&& q.from_ts <= e.timestamp
    &&& q.to_ts == 0 || e.timestamp <= q.to_ts
    &&& !q.filter_event_type || e.event_type == q.event_type
    &&& !q.filter_actor || e.actor == q.actor
    &&& !q.filter_portfolio || e.portfolio == q.portfolio
    &&& !q.filter_outcome || e.outcome == q.outcome
}

proof fn lemma_asked(
    entries: Map<u64, AuditLogView>,
    q: LogQuery,
    from: int,
    to: int,
    list: Seq<u64>,
)
    requires
        0 <= from,
        to <= u64::MAX,
        list.len() == to - from + 1,
        forall|i: int| 0 <= i < list.len() ==> #[trigger] list[i] == from + i,
        forall|i: int| 0 <= i < list.len() ==> entries.contains_key(#[trigger] list[i]),
    ensures
        accepted(entries, q, from, to) == list.map_values(|k: u64| entries[k]).filter(
            |e: AuditLogView| is_asked_for(q, e),
        ),
    decreases list.len(),
{
    reveal(Seq::filter);
    let asked = |e: AuditLogView| is_asked_for(q, e);
    let entry = |k: u64| entries[k];
    if list.len() > 0 {
        let front = list.drop_last();
        lemma_asked(entries, q, from, to - 1, front);
        assert(list.map_values(entry).drop_last() =~= front.map_values(entry));
        assert(list.last() == to);
        assert(list.map_values(entry).last() == entries[to as u64]);
    }
}

/// A query gives the first of the retained entries that it asks for, in order,
/// as many as its limit says, or fifty where that is zero.
pub proof fn queries_give_the_first_that_are_asked_for(
    s: AuditState,
    q: LogQuery,
    retained: Seq<u64>,
)
    requires
        s.wf(),
        retained.len() == s.next_seq + 1 - s.first_seq,
        forall|i: int| 0 <= i < retained.len() ==> #[trigger] retained[i] == s.first_seq + i,
    ensures
        ({
            let all = retained.map_values(|k: u64| s.entries[k]).filter(
                |e: AuditLogView| is_asked_for(q, e),
            );
            let limit: int = if q.limit == 0 {
                50
            } else {
                q.limit as int
            };
            found(s, q) == if all.len() > limit {
                all.take(limit)
            } else {
                all
            }
        }),
{
    lemma_asked(s.entries, q, s.first_seq as int, s.next_seq as int, retained);
}

// ---------------------------------------------------------------------------
// The chain
// ---------------------------------------------------------------------------

/// The head of a chain over entries: each links to the one before, the first
/// to zeros.
pub open spec fn head_over(entries: Seq<AuditLogView>) -> Word32
    decreases entries.len(),
{
    if entries.len() == 0 {
        Word32 { hi: 0, lo: 0 }
    } else {
        Word32::of(
            sha256_of(head_over(entries.drop_last()).bytes() + entry_bytes(entries.last())),
        )
    }
}

proof fn lemma_head(entries: Map<u64, AuditLogView>, from: int, to: int, list: Seq<u64>)
    requires
        0 <= from,
        to <= u64::MAX,
        list.len() == to - from + 1,
        forall|i: int| 0 <= i < list.len() ==> #[trigger] list[i] == from + i,
    ensures
        chain_over(entries, from, to) == head_over(list.map_values(|k: u64| entries[k])),
    decreases list.len(),
{
    let entry = |k: u64| entries[k];
    if list.len() > 0 {
        let front = list.drop_last();
        lemma_head(entries, from, to - 1, front);
        assert(list.map_values(entry).drop_last() =~= front.map_values(entry));
        assert(list.last() == to);
        assert(list.map_values(entry).last() == entries[to as u64]);
    }
}

/// A log without gaps passes the integrity check exactly where its stored
/// head, if there is one, is that of the chain over its entries.
pub proof fn integrity_is_the_head_over_the_entries(s: AuditState, retained: Seq<u64>)
    requires
        s.wf(),
        retained.len() == s.next_seq + 1 - s.first_seq,
        forall|i: int| 0 <= i < retained.len() ==> #[trigger] retained[i] == s.first_seq + i,
    ensures
        intact(s) <==> s.head is None || s.head == Some(
            head_over(retained.map_values(|k: u64| s.entries[k])),
        ),
{
    lemma_head(s.entries, s.first_seq as int, s.next_seq as int, retained);
}

// ---------------------------------------------------------------------------
// Retention
// ---------------------------------------------------------------------------

/// The entry is older than the policy allows.
pub open spec fn is_too_old(s: AuditState, e: AuditLogView) -> bool {
    s.policy.max_age_seconds > 0 && e.timestamp + s.policy.max_age_seconds < s.timestamp
}

proof fn lemma_first_young(s: AuditState, from: int, cutoff: u64, young: int)
    requires
        0 <= from <= young <= s.next_seq + 1,
        forall|seq: u64|
            from <= seq < young ==> (#[trigger] s.entries[seq]).timestamp < cutoff,
        young <= s.next_seq ==> s.entries[young as u64].timestamp >= cutoff,
    ensures
        age_floor(s.entries, from, s.next_seq as int, cutoff) == young,
    decreases young - from,
{
    if from < young {
        assert(s.entries[from as u64].timestamp < cutoff);
        lemma_first_young(s, from + 1, cutoff, young);
    }
}

/// Pruning is for the administrator and needs a policy. It takes away the
/// entries from the oldest on that are too old, up to the first that is not,
/// and further ones until no more are left than the policy allows. It says how
/// many it took, and the chain is that over what is left.
pub proof fn pruning_takes_the_oldest(
    s: AuditState,
    admin: Address,
    young: int,
    retained: Seq<u64>,
)
    requires
        s.wf(),
        s.first_seq <= young <= s.next_seq + 1,
        forall|seq: u64|
            s.first_seq <= seq < young ==> is_too_old(s, #[trigger] s.entries[seq]),
        young <= s.next_seq ==> !is_too_old(s, s.entries[young as u64]),
    ensures
        ({
            let r = pruned(s, admin);
            let (t, n) = r->Ok_0;
            let limit = s.policy.max_entries;
            let floor = if limit > 0 && s.next_seq + 1 - young > limit {
                s.next_seq + 1 - limit
            } else {
                young
            };
            &&& r is Ok <==> s.admin == Some(admin) && (limit > 0 || s.policy.max_age_seconds > 0)
            &&& s.admin is None ==> r->Err_0 == Error::NotInitialized
            &&& s.admin is Some && s.admin != Some(admin) ==> r->Err_0 == Error::Unauthorized
            &&& s.admin == Some(admin) && r is Err ==> r->Err_0 == Error::NoRetentionPolicy
            &&& r is Ok ==> {
                &&& t.first_seq == floor
                &&& n == (floor - s.first_seq) as u32
                &&& t.entry_count == s.next_seq + 1 - floor
                &&& forall|seq: u64| #[trigger]
                    t.entries.contains_key(seq) <==> floor <= seq <= s.next_seq
                &&& forall|seq: u64|
                    floor <= seq <= s.next_seq ==> #[trigger] t.entries[seq] == s.entries[seq]
                &&& retained.len() == s.next_seq + 1 - floor && (forall|i: int|
                    0 <= i < retained.len() ==> #[trigger] retained[i] == floor + i) ==> t.head
                    == Some(head_over(retained.map_values(|k: u64| s.entries[k])))
                &&& t == AuditState {
                    entries: t.entries,
                    first_seq: t.first_seq,
                    entry_count: t.entry_count,
                    head: t.head,
                    ..s
                }
            }
        }),
{
    lemma_floors(s);
    let age = s.policy.max_age_seconds;
    if age > 0 {
        let cutoff = if s.timestamp >= age {
            (s.timestamp - age) as u64
        } else {
            0
        };
        assert forall|seq: u64| s.first_seq <= seq < young implies (
        #[trigger] s.entries[seq]).timestamp < cutoff by {
            assert(is_too_old(s, s.entries[seq]));
        }
        lemma_first_young(s, s.first_seq as int, cutoff, young);
    } else if young > s.first_seq {
        assert(is_too_old(s, s.entries[s.first_seq]));
    }
    let r = pruned(s, admin);
    if r is Ok {
        let t = r->Ok_0.0;
        let floor = t.first_seq as int;
        if retained.len() == s.next_seq + 1 - floor && (forall|i: int|
            0 <= i < retained.len() ==> #[trigger] retained[i] == floor + i) {
            lemma_head(t.entries, floor, s.next_seq as int, retained);
            assert(retained.map_values(|k: u64| t.entries[k]) =~= retained.map_values(
                |k: u64| s.entries[k],
            ));
        }
    }
}

// ---------------------------------------------------------------------------
// Signed exports
// ---------------------------------------------------------------------------

/// The compact form of an entry: sequence ID, time, event type, permissions
/// and hash.
pub open spec fn compact_form(e: AuditLogView) -> Seq<u8> {
    be_bytes(e.seq as nat, 8) + be_bytes(e.timestamp as nat, 8) + be_bytes(
        e.event_type.spec_code() as nat,
        4,
    ) + be_bytes(e.permissions as nat, 4) + e.hash.bytes()
}

proof fn lemma_compact_forms(entries: Seq<AuditLogView>, n: int)
    requires
        0 <= n <= entries.len(),
    ensures
        entries_bytes(entries, n) == entries.take(n).map_values(
            |e: AuditLogView| compact_form(e),
        ).flatten(),
    decreases n,
{
    let form = |e: AuditLogView| compact_form(e);
    if n > 0 {
        lemma_compact_forms(entries, n - 1);
        let before = entries.take(n - 1).map_values(form);
        assert(entries.take(n).map_values(form) =~= before.push(compact_form(entries[n - 1])));
        before.lemma_flatten_push(compact_form(entries[n - 1]));
    } else {
        assert(entries.take(0).map_values(form) =~= Seq::empty());
    }
}

/// What is hashed of an export is the number of its entries and the compact
/// form of each, in order.
pub proof fn exports_are_hashed_in_order(entries: Seq<AuditLogView>)
    ensures
        digest_of(entries) == Word32::of(
            sha256_of(
                be_bytes(entries.len(), 4) + entries.map_values(
                    |e: AuditLogView| compact_form(e),
                ).flatten(),
            ),
        ),
{
    lemma_compact_forms(entries, entries.len() as int);
    assert(entries.take(entries.len() as int) =~= entries);
}

/// An export holds up to its signature exactly where it names the key it is
/// checked against and its digest is that of its entries. What is left to
/// check is the signature, under that key, over the digest.
pub proof fn exports_hold_under_their_key(
    entries: Seq<AuditLogView>,
    digest: Word32,
    signature: Word64,
    signer: Word32,
    key: Word32,
)
    ensures
        ({
            let r = export_check(entries, digest, signature, signer, key);
            &&& r is Ok <==> signer == key && digest == digest_of(entries)
            &&& r is Ok ==> r->Ok_0.public_key == key && r->Ok_0.message == digest
                && r->Ok_0.signature == signature
            &&& signer != key ==> r->Err_0 == ExportError::SignerMismatch
            &&& signer == key && r is Err ==> r->Err_0 == ExportError::DigestMismatch
        }),
{
}

} // verus!
