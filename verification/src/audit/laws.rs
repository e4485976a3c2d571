//! What holds of the audit log over several calls.

use vstd::prelude::*;
use vstd::utf8::{encode_utf8, encode_utf8_decode_utf8};

use crate::audit::checksum::{
    entry_bytes, field_bytes, fields_bytes, fixed_bytes, hashable, lemma_fields_len,
    lemma_payload_len, lemma_text_len, snapshot_bytes,
};
use crate::audit::contract::{
    accepted, age_cutoff, age_floor, bucket_of, entry_for, floor_by_age, floor_by_policy, found,
    intact, lemma_age_floor_range, logged, pruned, EventData,
};
use crate::audit::hashing::sha256_of;
use crate::audit::log_query::LogQuery;
use crate::audit::records::{chain_origin, AuditLogView, FieldEntry};
use crate::audit::signing::{
    compact, compact_bytes, entries_bytes, export_bytes, lemma_entries_len, EntryDigest,
};
use crate::audit::state::{chain_over, AuditState};
use crate::base::address::{addresses_are_their_texts, Address};
use crate::base::bytes::{
    be_bytes, lemma_be_bytes_len, lemma_be_value_of_bytes, lemma_pow256_values, lemma_word_bytes,
    pow256, Word32,
};

verus! {

// ---------------------------------------------------------------------------
// The log only grows at its end
// ---------------------------------------------------------------------------

/// Logging gives the new entry a sequence ID above all others, keeps every
/// entry that was there as it was, and every index finds the new entry.
pub proof fn logging_only_appends(s: AuditState, d: EventData)
    requires
        s.wf(),
        s.next_seq + 1 < u64::MAX,
    ensures
        forall|seq: u64| #[trigger]
            s.entries.contains_key(seq) ==> seq < entry_for(s, d).seq && logged(
                s,
                d,
            ).entries.contains_key(seq) && logged(s, d).entries[seq] == s.entries[seq],
        forall|seq: u64| #[trigger]
            logged(s, d).entries.contains_key(seq) ==> s.entries.contains_key(seq) || seq
                == entry_for(s, d).seq,
        logged(s, d).entries[entry_for(s, d).seq] == entry_for(s, d),
        ({
            let e = entry_for(s, d);
            let b = bucket_of(e.seq);
            let t = logged(s, d);
            &&& t.by_type[(e.event_type, b)].last() == e.seq
            &&& t.by_actor[(e.actor, b)].last() == e.seq
            &&& t.by_portfolio[(e.portfolio, b)].last() == e.seq
            &&& t.by_outcome[(e.outcome, b)].last() == e.seq
        }),
{
}

proof fn lemma_chain_frame(
    a: Map<u64, AuditLogView>,
    b: Map<u64, AuditLogView>,
    from: int,
    to: int,
)
    requires
        0 <= from,
        to <= u64::MAX,
        forall|seq: u64| from <= seq <= to ==> #[trigger] a[seq] == b[seq],
    ensures
        chain_over(a, from, to) == chain_over(b, from, to),
    decreases to - from + 1,
{
    if from <= to {
        lemma_chain_frame(a, b, from, to - 1);
        assert(a[to as u64] == b[to as u64]);
    }
}

/// A log whose head is that of the chain over its entries stays so when an
/// event is logged.
pub proof fn logging_keeps_the_chain(s: AuditState, d: EventData)
    requires
        s.wf(),
        s.chained(),
        s.next_seq + 1 < u64::MAX,
    ensures
        logged(s, d).chained(),
{
    let t = logged(s, d);
    let e = entry_for(s, d);
    lemma_chain_frame(s.entries, t.entries, s.first_seq as int, s.next_seq as int);
    assert(t.entries[e.seq] == e);
    assert(entry_bytes(e) =~= entry_bytes(AuditLogView { hash: chain_origin(), ..e }));
}

/// Pruning leaves a head that is that of the chain over the entries that stay,
/// and every entry that stays as it was.
pub proof fn pruning_keeps_the_chain(s: AuditState, admin: Address)
    requires
        s.wf(),
        pruned(s, admin) is Ok,
    ensures
        pruned(s, admin)->Ok_0.0.chained(),
        forall|seq: u64| #[trigger]
            pruned(s, admin)->Ok_0.0.entries.contains_key(seq) ==> s.entries.contains_key(seq)
                && pruned(s, admin)->Ok_0.0.entries[seq] == s.entries[seq],
{
    lemma_floors(s);
}

pub proof fn lemma_floors(s: AuditState)
    requires
        s.wf(),
    ensures
        s.first_seq <= floor_by_age(s) <= floor_by_policy(s) <= s.next_seq + 1,
{
    lemma_age_floor_range(
        s.entries,
        s.first_seq as int,
        s.next_seq as int,
        age_cutoff(s.timestamp, s.policy.max_age_seconds),
    );
}

/// A log that was only ever logged to and pruned passes the integrity check.
pub proof fn an_untouched_log_is_intact(s: AuditState)
    requires
        s.wf(),
        s.chained(),
    ensures
        intact(s),
{
}

/// Two inputs of the hash with the same hash.
pub open spec fn is_collision(x: Seq<u8>, y: Seq<u8>) -> bool {
    x != y && Word32::of(sha256_of(x)) == Word32::of(sha256_of(y))
}

/// Changing the payload of any retained entry changes the head of the chain,
/// unless the change comes with two inputs of SHA-256 that have the same hash.
pub proof fn tampering_changes_the_head(
    a: Map<u64, AuditLogView>,
    b: Map<u64, AuditLogView>,
    from: u64,
    to: u64,
    seq: u64,
)
    requires
        from <= seq <= to,
        entry_bytes(a[seq]) != entry_bytes(b[seq]),
    ensures
        chain_over(a, from as int, to as int) != chain_over(b, from as int, to as int) || exists|
            x: Seq<u8>,
            y: Seq<u8>,
        | #[trigger] is_collision(x, y),
    decreases to - seq,
{
    if forall|x: Seq<u8>, y: Seq<u8>| !#[trigger] is_collision(x, y) {
        lemma_heads_differ(a, b, from as int, to as int, seq);
    }
}

proof fn lemma_heads_differ(
    a: Map<u64, AuditLogView>,
    b: Map<u64, AuditLogView>,
    from: int,
    to: int,
    seq: u64,
)
    requires
        from <= seq <= to <= u64::MAX,
        entry_bytes(a[seq]) != entry_bytes(b[seq]),
        forall|x: Seq<u8>, y: Seq<u8>| !#[trigger] is_collision(x, y),
    ensures
        chain_over(a, from, to) != chain_over(b, from, to),
    decreases to - seq,
{
    let p = chain_over(a, from, to - 1);
    let q = chain_over(b, from, to - 1);
    let x = p.bytes() + entry_bytes(a[to as u64]);
    let y = q.bytes() + entry_bytes(b[to as u64]);
    lemma_word_bytes(p);
    lemma_word_bytes(q);
    if to > seq {
        lemma_heads_differ(a, b, from, to - 1, seq);
    }
    if x == y {
        lemma_concat(p.bytes(), entry_bytes(a[to as u64]), q.bytes(), entry_bytes(b[to as u64]));
    }
    assert(!is_collision(x, y));
}

proof fn lemma_concat(a: Seq<u8>, b: Seq<u8>, c: Seq<u8>, d: Seq<u8>)
    requires
        a + b == c + d,
        a.len() == c.len() || b.len() == d.len(),
    ensures
        a == c,
        b == d,
{
    let n = a.len() as int;
    assert((a + b).len() == (c + d).len());
    assert((a + b).take(n) =~= a);
    assert((c + d).take(n) =~= c);
    assert((a + b).skip(n) =~= b);
    assert((c + d).skip(n) =~= d);
}

// ---------------------------------------------------------------------------
// A payload tells the entry
// ---------------------------------------------------------------------------

proof fn lemma_be_injective(a: nat, b: nat, len: nat)
    requires
        a < pow256(len),
        b < pow256(len),
        be_bytes(a, len) == be_bytes(b, len),
    ensures
        a == b,
{
    lemma_be_value_of_bytes(a, len);
    lemma_be_value_of_bytes(b, len);
}

proof fn lemma_word_injective(a: Word32, b: Word32)
    requires
        a.bytes() == b.bytes(),
    ensures
        a == b,
{
    lemma_word_bytes(a);
    lemma_word_bytes(b);
}

proof fn lemma_field_injective(f: FieldEntry, g: FieldEntry)
    requires
        field_bytes(f) == field_bytes(g),
    ensures
        f == g,
{
    lemma_word_bytes(f.key.word);
    lemma_word_bytes(g.key.word);
    let x = f.value as u128;
    let y = g.value as u128;
    lemma_concat(
        f.key.word.bytes(),
        be_bytes(x as nat, 16),
        g.key.word.bytes(),
        be_bytes(y as nat, 16),
    );
    lemma_word_injective(f.key.word, g.key.word);
    lemma_pow256_values();
    lemma_be_injective(x as nat, y as nat, 16);
    let u = f.value;
    let v = g.value;
    assert(u as u128 == v as u128 ==> u == v) by (bit_vector);
}

proof fn lemma_fields_injective(f: Seq<FieldEntry>, g: Seq<FieldEntry>, n: int)
    requires
        0 <= n <= f.len(),
        n <= g.len(),
        fields_bytes(f, n) == fields_bytes(g, n),
    ensures
        forall|i: int| 0 <= i < n ==> #[trigger] f[i] == g[i],
    decreases n,
{
    if n > 0 {
        lemma_fields_len(f, n - 1);
        lemma_fields_len(g, n - 1);
        lemma_concat(
            fields_bytes(f, n - 1),
            field_bytes(f[n - 1]),
            fields_bytes(g, n - 1),
            field_bytes(g[n - 1]),
        );
        lemma_fields_injective(f, g, n - 1);
        lemma_field_injective(f[n - 1], g[n - 1]);
    }
}

/// A snapshot's bytes, with anything behind them, tell the snapshot.
proof fn lemma_snapshot_injective(
    f: Seq<FieldEntry>,
    g: Seq<FieldEntry>,
    after_f: Seq<u8>,
    after_g: Seq<u8>,
)
    requires
        f.len() <= u32::MAX,
        g.len() <= u32::MAX,
        snapshot_bytes(f) + after_f == snapshot_bytes(g) + after_g,
    ensures
        f == g,
        after_f == after_g,
{
    lemma_pow256_values();
    lemma_be_bytes_len(f.len(), 4);
    lemma_be_bytes_len(g.len(), 4);
    let ff = fields_bytes(f, f.len() as int);
    let gg = fields_bytes(g, g.len() as int);
    assert(snapshot_bytes(f) + after_f =~= be_bytes(f.len(), 4) + (ff + after_f));
    assert(snapshot_bytes(g) + after_g =~= be_bytes(g.len(), 4) + (gg + after_g));
    lemma_concat(be_bytes(f.len(), 4), ff + after_f, be_bytes(g.len(), 4), gg + after_g);
    lemma_be_injective(f.len(), g.len(), 4);
    lemma_fields_len(f, f.len() as int);
    lemma_fields_len(g, g.len() as int);
    lemma_concat(ff, after_f, gg, after_g);
    lemma_fields_injective(f, g, f.len() as int);
    assert(f =~= g);
}

proof fn lemma_fixed_injective(a: AuditLogView, b: AuditLogView)
    requires
        fixed_bytes(
            a.seq,
            a.timestamp,
            a.event_type.spec_code(),
            a.permissions,
            a.actor,
            a.portfolio,
            a.outcome,
        ) == fixed_bytes(
            b.seq,
            b.timestamp,
            b.event_type.spec_code(),
            b.permissions,
            b.actor,
            b.portfolio,
            b.outcome,
        ),
    ensures
        a.seq == b.seq,
        a.timestamp == b.timestamp,
        a.event_type == b.event_type,
        a.permissions == b.permissions,
        a.actor.text() == b.actor.text(),
        a.portfolio == b.portfolio,
        a.outcome == b.outcome,
{
    lemma_pow256_values();
    let a1 = be_bytes(a.seq as nat, 8);
    let a2 = be_bytes(a.timestamp as nat, 8);
    let a3 = be_bytes(a.event_type.spec_code() as nat, 4);
    let a4 = be_bytes(a.permissions as nat, 4);
    let a5 = a.actor.text();
    let a6 = a.portfolio.word.bytes();
    let a7 = a.outcome.word.bytes();
    let b1 = be_bytes(b.seq as nat, 8);
    let b2 = be_bytes(b.timestamp as nat, 8);
    let b3 = be_bytes(b.event_type.spec_code() as nat, 4);
    let b4 = be_bytes(b.permissions as nat, 4);
    let b5 = b.actor.text();
    let b6 = b.portfolio.word.bytes();
    let b7 = b.outcome.word.bytes();
    lemma_be_bytes_len(a.seq as nat, 8);
    lemma_be_bytes_len(b.seq as nat, 8);
    lemma_be_bytes_len(a.timestamp as nat, 8);
    lemma_be_bytes_len(b.timestamp as nat, 8);
    lemma_be_bytes_len(a.event_type.spec_code() as nat, 4);
    lemma_be_bytes_len(b.event_type.spec_code() as nat, 4);
    lemma_be_bytes_len(a.permissions as nat, 4);
    lemma_be_bytes_len(b.permissions as nat, 4);
    lemma_text_len(a.actor);
    lemma_text_len(b.actor);
    lemma_word_bytes(a.portfolio.word);
    lemma_word_bytes(b.portfolio.word);
    lemma_word_bytes(a.outcome.word);
    lemma_word_bytes(b.outcome.word);
    lemma_concat(a1 + a2 + a3 + a4 + a5 + a6, a7, b1 + b2 + b3 + b4 + b5 + b6, b7);
    lemma_concat(a1 + a2 + a3 + a4 + a5, a6, b1 + b2 + b3 + b4 + b5, b6);
    lemma_concat(a1 + a2 + a3 + a4, a5, b1 + b2 + b3 + b4, b5);
    lemma_concat(a1 + a2 + a3, a4, b1 + b2 + b3, b4);
    lemma_concat(a1 + a2, a3, b1 + b2, b3);
    lemma_concat(a1, a2, b1, b2);
    lemma_be_injective(a.seq as nat, b.seq as nat, 8);
    lemma_be_injective(a.timestamp as nat, b.timestamp as nat, 8);
    lemma_be_injective(a.event_type.spec_code() as nat, b.event_type.spec_code() as nat, 4);
    lemma_be_injective(a.permissions as nat, b.permissions as nat, 4);
    lemma_word_injective(a.portfolio.word, b.portfolio.word);
    lemma_word_injective(a.outcome.word, b.outcome.word);
}

/// Entries that differ in anything but their hash have different payloads, so
/// that the hash of an entry covers all of it.
pub proof fn a_payload_tells_its_entry(a: AuditLogView, b: AuditLogView)
    requires
        hashable(a.detail, a.state_before, a.state_after),
        hashable(b.detail, b.state_before, b.state_after),
        a.actor.valid(),
        b.actor.valid(),
        entry_bytes(a) == entry_bytes(b),
    ensures
        a == (AuditLogView { hash: a.hash, ..b }),
{
    let fa = fixed_bytes(
        a.seq,
        a.timestamp,
        a.event_type.spec_code(),
        a.permissions,
        a.actor,
        a.portfolio,
        a.outcome,
    );
    let fb = fixed_bytes(
        b.seq,
        b.timestamp,
        b.event_type.spec_code(),
        b.permissions,
        b.actor,
        b.portfolio,
        b.outcome,
    );
    lemma_fixed_len(a);
    lemma_fixed_len(b);
    let da = encode_utf8(a.detail);
    let db = encode_utf8(b.detail);
    let la = be_bytes(da.len(), 4);
    let lb = be_bytes(db.len(), 4);
    lemma_be_bytes_len(da.len(), 4);
    lemma_be_bytes_len(db.len(), 4);
    let ra = snapshot_bytes(a.state_before) + snapshot_bytes(a.state_after);
    let rb = snapshot_bytes(b.state_before) + snapshot_bytes(b.state_after);
    assert(entry_bytes(a) =~= fa + (la + (da + ra)));
    assert(entry_bytes(b) =~= fb + (lb + (db + rb)));
    lemma_concat(fa, la + (da + ra), fb, lb + (db + rb));
    lemma_concat(la, da + ra, lb, db + rb);
    lemma_pow256_values();
    lemma_be_injective(da.len(), db.len(), 4);
    lemma_concat(da, ra, db, rb);
    encode_utf8_decode_utf8(a.detail);
    encode_utf8_decode_utf8(b.detail);
    lemma_snapshot_injective(
        a.state_before,
        b.state_before,
        snapshot_bytes(a.state_after),
        snapshot_bytes(b.state_after),
    );
    assert(snapshot_bytes(a.state_after) + Seq::<u8>::empty() =~= snapshot_bytes(a.state_after));
    assert(snapshot_bytes(b.state_after) + Seq::<u8>::empty() =~= snapshot_bytes(b.state_after));
    lemma_snapshot_injective(a.state_after, b.state_after, Seq::empty(), Seq::empty());
    lemma_fixed_injective(a, b);
    addresses_are_their_texts(a.actor, b.actor);
}

proof fn lemma_fixed_len(a: AuditLogView)
    ensures
        fixed_bytes(
            a.seq,
            a.timestamp,
            a.event_type.spec_code(),
            a.permissions,
            a.actor,
            a.portfolio,
            a.outcome,
        ).len() == 144,
{
    lemma_payload_len(
        a.seq,
        a.timestamp,
        a.event_type.spec_code(),
        a.permissions,
        a.actor,
        a.portfolio,
        a.outcome,
        a.detail,
        a.state_before,
        a.state_after,
    );
}

// ---------------------------------------------------------------------------
// Queries
// ---------------------------------------------------------------------------

proof fn lemma_accepted(entries: Map<u64, AuditLogView>, q: LogQuery, from: int, to: int)
    requires
        0 <= from,
        to <= u64::MAX,
        forall|seq: u64| #[trigger] entries.contains_key(seq) ==> entries[seq].seq == seq,
    ensures
        ({
            let r = accepted(entries, q, from, to);
            &&& forall|i: int|
                0 <= i < r.len() ==> from <= (#[trigger] r[i]).seq <= to && q.accepts(r[i])
                    && entries.contains_key(r[i].seq) && entries[r[i].seq] == r[i]
            &&& forall|i: int, j: int| 0 <= i < j < r.len() ==> (#[trigger] r[i]).seq < (
            #[trigger] r[j]).seq
            &&& forall|seq: u64|
                from <= seq <= to && #[trigger] entries.contains_key(seq) && q.accepts(entries[seq])
                    ==> r.contains(entries[seq])
        }),
    decreases to - from + 1,
{
    if from <= to {
        lemma_accepted(entries, q, from, to - 1);
        let before = accepted(entries, q, from, to - 1);
        let r = accepted(entries, q, from, to);
        assert forall|seq: u64|
            from <= seq <= to && #[trigger] entries.contains_key(seq) && q.accepts(
                entries[seq],
            ) implies r.contains(entries[seq]) by {
            if seq == to {
                assert(r.last() == entries[seq]);
            } else {
                assert(before.contains(entries[seq]));
                let i = choose|i: int| 0 <= i < before.len() && before[i] == entries[seq];
                assert(r[i] == entries[seq]);
            }
        }
    }
}

/// A query returns retained entries that pass its filters, oldest first and
/// none twice, no more than its cap; and below the cap it returns all of them.
pub proof fn queries_return_the_oldest_matches(s: AuditState, q: LogQuery)
    requires
        s.wf(),
    ensures
        found(s, q).len() <= q.cap(),
        forall|i: int|
            0 <= i < found(s, q).len() ==> q.accepts(#[trigger] found(s, q)[i])
                && s.entries.contains_key(found(s, q)[i].seq) && s.entries[found(s, q)[i].seq]
                == found(s, q)[i],
        forall|i: int, j: int|
            0 <= i < j < found(s, q).len() ==> (#[trigger] found(s, q)[i]).seq < (#[trigger] found(
                s,
                q,
            )[j]).seq,
        found(s, q).len() < q.cap() ==> forall|seq: u64| #[trigger]
            s.entries.contains_key(seq) && q.accepts(s.entries[seq]) ==> found(s, q).contains(
                s.entries[seq],
            ),
{
    lemma_accepted(s.entries, q, s.first_seq as int, s.next_seq as int);
}

// ---------------------------------------------------------------------------
// Retention
// ---------------------------------------------------------------------------

proof fn lemma_age_floor_age(entries: Map<u64, AuditLogView>, from: int, to: int, cutoff: u64)
    requires
        0 <= from <= to + 1,
        to <= u64::MAX,
    ensures
        age_floor(entries, from, to, cutoff) <= to ==> entries[age_floor(
            entries,
            from,
            to,
            cutoff,
        ) as u64].timestamp >= cutoff,
    decreases to - from + 1,
{
    if from <= to && entries[from as u64].timestamp < cutoff {
        lemma_age_floor_age(entries, from + 1, to, cutoff);
    }
}

/// Where time never ran backwards, pruning removes the least number of the
/// oldest entries that leaves no more entries than the policy allows and none
/// that is too old; the others stay, and pruning again at once removes nothing.
pub proof fn pruning_meets_the_policy(s: AuditState, admin: Address)
    requires
        s.wf(),
        pruned(s, admin) is Ok,
        forall|a: u64, b: u64|
            s.first_seq <= a <= b <= s.next_seq ==> (#[trigger] s.entries[a]).timestamp <= (
            #[trigger] s.entries[b]).timestamp,
    ensures
        ({
            let t = pruned(s, admin)->Ok_0.0;
            &&& s.policy.max_entries > 0 ==> t.entry_count <= s.policy.max_entries
            &&& s.policy.max_age_seconds > 0 ==> forall|seq: u64| #[trigger]
                t.entries.contains_key(seq) ==> t.entries[seq].timestamp >= age_cutoff(
                    s.timestamp,
                    s.policy.max_age_seconds,
                )
            &&& forall|a: u64, b: u64|
                t.entries.contains_key(a) && a <= b <= s.next_seq ==> #[trigger]
                t.entries.contains_key(a) && #[trigger] t.entries.contains_key(b)
            &&& pruned(s, admin)->Ok_0.1 == (s.entry_count - t.entry_count) as u32
            &&& forall|seq: u64| #[trigger]
                t.entries.contains_key(seq) ==> t.entries[seq] == s.entries[seq]
            &&& t.first_seq > s.first_seq ==> {
                ||| s.policy.max_entries > 0 && t.entry_count + 1 > s.policy.max_entries
                ||| s.policy.max_age_seconds > 0 && s.entries[(t.first_seq
                    - 1) as u64].timestamp < age_cutoff(s.timestamp, s.policy.max_age_seconds)
            }
            &&& pruned(t, admin) is Ok
            &&& pruned(t, admin)->Ok_0.1 == 0
            &&& pruned(t, admin)->Ok_0.0.entries == t.entries
        }),
{
    lemma_floors(s);
    let t = pruned(s, admin)->Ok_0.0;
    lemma_age_floor_least(
        s.entries,
        s.first_seq as int,
        s.next_seq as int,
        age_cutoff(s.timestamp, s.policy.max_age_seconds),
    );
    if s.policy.max_age_seconds > 0 {
        let cutoff = age_cutoff(s.timestamp, s.policy.max_age_seconds);
        lemma_age_floor_age(s.entries, s.first_seq as int, s.next_seq as int, cutoff);
        assert forall|seq: u64| #[trigger] t.entries.contains_key(seq) implies t.entries[seq].timestamp
            >= cutoff by {
            let f = floor_by_age(s) as u64;
            assert(s.entries.contains_key(seq));
            assert(s.entries[f].timestamp <= s.entries[seq].timestamp);
        }
        if t.first_seq <= t.next_seq {
            assert(t.entries.contains_key(t.first_seq));
        }
    }
    assert(floor_by_age(t) == t.first_seq);
    assert(pruned(t, admin)->Ok_0.0.entries =~= t.entries);
}

/// The entry below the floor of the age limit is too old.
proof fn lemma_age_floor_least(entries: Map<u64, AuditLogView>, from: int, to: int, cutoff: u64)
    requires
        0 <= from <= to + 1,
        to <= u64::MAX,
    ensures
        age_floor(entries, from, to, cutoff) > from ==> entries[(age_floor(
            entries,
            from,
            to,
            cutoff,
        ) - 1) as u64].timestamp < cutoff,
    decreases to - from + 1,
{
    if from <= to && entries[from as u64].timestamp < cutoff {
        lemma_age_floor_least(entries, from + 1, to, cutoff);
        if age_floor(entries, from + 1, to, cutoff) == from + 1 {
        } else {
            lemma_age_floor_range(entries, from + 1, to, cutoff);
        }
    }
}

// ---------------------------------------------------------------------------
// Exports
// ---------------------------------------------------------------------------

proof fn lemma_compact_injective(a: EntryDigest, b: EntryDigest)
    requires
        compact_bytes(a) == compact_bytes(b),
    ensures
        a == b,
{
    lemma_pow256_values();
    let a1 = be_bytes(a.seq as nat, 8);
    let a2 = be_bytes(a.timestamp as nat, 8);
    let a3 = be_bytes(a.event_type as nat, 4);
    let a4 = be_bytes(a.permissions as nat, 4);
    let b1 = be_bytes(b.seq as nat, 8);
    let b2 = be_bytes(b.timestamp as nat, 8);
    let b3 = be_bytes(b.event_type as nat, 4);
    let b4 = be_bytes(b.permissions as nat, 4);
    lemma_be_bytes_len(a.seq as nat, 8);
    lemma_be_bytes_len(b.seq as nat, 8);
    lemma_be_bytes_len(a.timestamp as nat, 8);
    lemma_be_bytes_len(b.timestamp as nat, 8);
    lemma_be_bytes_len(a.event_type as nat, 4);
    lemma_be_bytes_len(b.event_type as nat, 4);
    lemma_be_bytes_len(a.permissions as nat, 4);
    lemma_be_bytes_len(b.permissions as nat, 4);
    lemma_word_bytes(a.hash);
    lemma_word_bytes(b.hash);
    lemma_concat(a1 + a2 + a3 + a4, a.hash.bytes(), b1 + b2 + b3 + b4, b.hash.bytes());
    lemma_concat(a1 + a2 + a3, a4, b1 + b2 + b3, b4);
    lemma_concat(a1 + a2, a3, b1 + b2, b3);
    lemma_concat(a1, a2, b1, b2);
    lemma_be_injective(a.seq as nat, b.seq as nat, 8);
    lemma_be_injective(a.timestamp as nat, b.timestamp as nat, 8);
    lemma_be_injective(a.event_type as nat, b.event_type as nat, 4);
    lemma_be_injective(a.permissions as nat, b.permissions as nat, 4);
    lemma_word_injective(a.hash, b.hash);
}

proof fn lemma_entries_injective(a: Seq<AuditLogView>, b: Seq<AuditLogView>, n: int)
    requires
        0 <= n <= a.len(),
        n <= b.len(),
        entries_bytes(a, n) == entries_bytes(b, n),
    ensures
        forall|i: int| 0 <= i < n ==> compact(#[trigger] a[i]) == compact(b[i]),
    decreases n,
{
    if n > 0 {
        lemma_entries_len(a, n - 1);
        lemma_entries_len(b, n - 1);
        lemma_concat(
            entries_bytes(a, n - 1),
            compact_bytes(compact(a[n - 1])),
            entries_bytes(b, n - 1),
            compact_bytes(compact(b[n - 1])),
        );
        lemma_entries_injective(a, b, n - 1);
        lemma_compact_injective(compact(a[n - 1]), compact(b[n - 1]));
    }
}

/// The bytes that are hashed for an export tell how many entries it has and
/// the sequence ID, time, type, permissions and hash of each.
pub proof fn exports_tell_their_entries(a: Seq<AuditLogView>, b: Seq<AuditLogView>)
    requires
        a.len() <= u32::MAX,
        b.len() <= u32::MAX,
        export_bytes(a) == export_bytes(b),
    ensures
        a.len() == b.len(),
        forall|i: int| 0 <= i < a.len() ==> compact(#[trigger] a[i]) == compact(b[i]),
{
    lemma_pow256_values();
    lemma_be_bytes_len(a.len(), 4);
    lemma_be_bytes_len(b.len(), 4);
    lemma_concat(
        be_bytes(a.len(), 4),
        entries_bytes(a, a.len() as int),
        be_bytes(b.len(), 4),
        entries_bytes(b, b.len() as int),
    );
    lemma_be_injective(a.len(), b.len(), 4);
    lemma_entries_injective(a, b, a.len() as int);
}

} // verus!
