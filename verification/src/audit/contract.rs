//! The audit-log contract.

use vstd::prelude::*;

use crate::audit::checksum::{chain_hash, entry_bytes, entry_payload, first_chain_hash, hashable, link};
use crate::audit::log_query::LogQuery;
use crate::audit::records::{
    chain_origin, make_chain_origin, AuditEventType, AuditLog, AuditLogView, Error, FieldEntry,
    RetentionPolicy, StateSnapshot, BUCKET_SIZE,
};
use crate::audit::export::{
    ascii, csv_full_row, csv_row, format_csv, format_csv_full, format_jsonl, format_jsonl_full,
    json_full_row, json_row, rows_view, CSV_FULL_HEADER, CSV_HEADER,
};
use crate::audit::signing::{
    compute_digest, digest_of, export_check, exportable, verify_export, views, ExportError,
    SignatureClaim, SignedExport,
};
use crate::audit::state::{chain_over, AuditEnv, AuditState};
use crate::base::address::Address;
use crate::base::bytes::Word32;
use crate::base::effect::effect;
use crate::base::symbol::{sym, symbol_short, Symbol};
use crate::base::table::{value_or, Table, TableKey};
use crate::base::vecs::copy_vec;

verus! {

/// Audit-log contract for AstraPort: append-only, with chain-hash integrity,
/// indexing, retention and export.
pub struct AuditContract;

// ---------------------------------------------------------------------------
// What the calls do
// ---------------------------------------------------------------------------

/// What initializing does: the administrator is set, and what was logged
/// before stays.
pub open spec fn initialized(s: AuditState, admin: Address) -> Result<(AuditState, Symbol), Error> {
    if s.admin is Some {
        Err(Error::AlreadyInitialized)
    } else {
        Ok((AuditState { admin: Some(admin), ..s }, sym("ok"@)))
    }
}

/// The error of a caller who is not the administrator.
pub open spec fn admin_error(s: AuditState, caller: Address) -> Option<Error> {
    match s.admin {
        None => Some(Error::NotInitialized),
        Some(a) => if a == caller {
            None
        } else {
            Some(Error::Unauthorized)
        },
    }
}

/// What setting the retention policy does.
pub open spec fn policy_set(s: AuditState, admin: Address, policy: RetentionPolicy) -> Result<
    (AuditState, Symbol),
    Error,
> {
    match admin_error(s, admin) {
        Some(e) => Err(e),
        None => Ok((AuditState { policy, ..s }, sym("ok"@))),
    }
}

/// The bucket of a sequence ID.
pub open spec fn bucket_of(seq: u64) -> u32 {
    ((seq - 1) / BUCKET_SIZE as int) as u32
}

/// An index with one more sequence ID in a bucket.
pub open spec fn indexed<K>(index: Map<K, Seq<u64>>, k: K, seq: u64) -> Map<K, Seq<u64>> {
    index.insert(k, value_or(index, k, Seq::empty()).push(seq))
}

/// What the caller tells of an event.
#[verifier::ext_equal]
pub struct EventData {
    pub actor: Address,
    pub event_type: AuditEventType,
    pub portfolio: Symbol,
    pub permissions: u32,
    pub state_before: Seq<FieldEntry>,
    pub state_after: Seq<FieldEntry>,
    pub outcome: Symbol,
    pub detail: Seq<char>,
}

/// The entry that an event becomes, with the hash left out.
pub open spec fn unhashed(s: AuditState, d: EventData) -> AuditLogView {
    AuditLogView {
        seq: (s.next_seq + 1) as u64,
        timestamp: s.timestamp,
        event_type: d.event_type,
        actor: d.actor,
        permissions: d.permissions,
        portfolio: d.portfolio,
        state_before: d.state_before,
        state_after: d.state_after,
        outcome: d.outcome,
        detail: d.detail,
        hash: chain_origin(),
    }
}

/// The chain head that the next entry is linked to.
pub open spec fn link_point(s: AuditState) -> Word32 {
    if s.next_seq == 0 {
        chain_origin()
    } else {
        match s.head {
            Some(h) => h,
            None => chain_origin(),
        }
    }
}

/// The entry that an event becomes.
pub open spec fn entry_for(s: AuditState, d: EventData) -> AuditLogView {
    AuditLogView { hash: link(link_point(s), entry_bytes(unhashed(s, d))), ..unhashed(s, d) }
}

/// What logging an event does: the entry gets the next sequence ID, its hash
/// becomes the head of the chain, and every index learns of it.
pub open spec fn logged(s: AuditState, d: EventData) -> AuditState {
    let e = entry_for(s, d);
    let b = bucket_of(e.seq);
    AuditState {
        entries: s.entries.insert(e.seq, e),
        next_seq: e.seq,
        head: Some(e.hash),
        entry_count: (s.entry_count + 1) as u64,
        by_type: indexed(s.by_type, (e.event_type, b), e.seq),
        by_actor: indexed(s.by_actor, (e.actor, b), e.seq),
        by_portfolio: indexed(s.by_portfolio, (e.portfolio, b), e.seq),
        by_outcome: indexed(s.by_outcome, (e.outcome, b), e.seq),
        ..s
    }
}

/// The entries from `from` to `to` that a query accepts, oldest first.
pub open spec fn accepted(
    entries: Map<u64, AuditLogView>,
    q: LogQuery,
    from: int,
    to: int,
) -> Seq<AuditLogView>
    decreases to - from + 1,
{
    if to < from {
        Seq::empty()
    } else {
        let rest = accepted(entries, q, from, to - 1);
        if entries.contains_key(to as u64) && q.accepts(entries[to as u64]) {
            rest.push(entries[to as u64])
        } else {
            rest
        }
    }
}

/// What a query returns: the oldest entries that it accepts, up to its cap.
pub open spec fn found(s: AuditState, q: LogQuery) -> Seq<AuditLogView> {
    let all = accepted(s.entries, q, s.first_seq as int, s.next_seq as int);
    if all.len() <= q.cap() {
        all
    } else {
        all.take(q.cap() as int)
    }
}

/// Every entry from `from` to `to` is there.
pub open spec fn unbroken(entries: Map<u64, AuditLogView>, from: int, to: int) -> bool {
    forall|seq: u64| from <= seq <= to ==> #[trigger] entries.contains_key(seq)
}

/// The log has no gap, and the stored head is that of the chain over it.
pub open spec fn intact(s: AuditState) -> bool {
    let expected = chain_over(s.entries, s.first_seq as int, s.next_seq as int);
    unbroken(s.entries, s.first_seq as int, s.next_seq as int) && match s.head {
        Some(h) => h == expected,
        None => true,
    }
}

/// The first entry from `from` on that is not older than the cutoff.
pub open spec fn age_floor(
    entries: Map<u64, AuditLogView>,
    from: int,
    to: int,
    cutoff: u64,
) -> int
    decreases to - from + 1,
{
    if to < from || entries[from as u64].timestamp >= cutoff {
        from
    } else {
        age_floor(entries, from + 1, to, cutoff)
    }
}

/// The moment before which entries are too old.
pub open spec fn age_cutoff(now: u64, limit: u64) -> u64 {
    if now >= limit {
        (now - limit) as u64
    } else {
        0
    }
}

/// The floor that the age limit asks for.
pub open spec fn floor_by_age(s: AuditState) -> int {
    if s.policy.max_age_seconds > 0 {
        age_floor(
            s.entries,
            s.first_seq as int,
            s.next_seq as int,
            age_cutoff(s.timestamp, s.policy.max_age_seconds),
        )
    } else {
        s.first_seq as int
    }
}

/// The floor that the whole policy asks for.
pub open spec fn floor_by_policy(s: AuditState) -> int {
    let f = floor_by_age(s);
    if s.policy.max_entries > 0 && s.next_seq + 1 - f > s.policy.max_entries {
        s.next_seq + 1 - s.policy.max_entries
    } else {
        f
    }
}

/// The entries that stay when the floor is raised.
pub open spec fn kept(entries: Map<u64, AuditLogView>, floor: int) -> Map<u64, AuditLogView> {
    entries.restrict(Set::new(|seq: u64| seq >= floor))
}

/// What pruning does: entries below the new floor go, and the head becomes
/// that of the chain over the rest.
pub open spec fn pruned(s: AuditState, admin: Address) -> Result<(AuditState, u32), Error> {
    match admin_error(s, admin) {
        Some(e) => Err(e),
        None => if s.policy.unbounded() {
            Err(Error::NoRetentionPolicy)
        } else {
            let floor = floor_by_policy(s);
            let entries = kept(s.entries, floor);
            Ok(
                (
                    AuditState {
                        entries,
                        first_seq: floor as u64,
                        entry_count: (s.next_seq + 1 - floor) as u64,
                        head: Some(chain_over(entries, floor, s.next_seq as int)),
                        ..s
                    },
                    (floor - s.first_seq) as u32,
                ),
            )
        },
    }
}

impl AuditContract {
    // -----------------------------------------------------------------------
    // Lifecycle
    // -----------------------------------------------------------------------

    /// Initialize the contract with an admin address. May only be called once.
    pub fn initialize(env: &mut AuditEnv, admin: Address) -> (r: Result<Symbol, Error>)
        ensures
            effect(initialized(old(env)@, admin), r, old(env)@, final(env)@),
    {
        if env.admin.is_some() {
            return Err(Error::AlreadyInitialized);
        }
        env.admin = Some(admin);
        assert(env@ =~= initialized(old(env)@, admin)->Ok_0.0);
        Ok(symbol_short("ok"))
    }

    /// Return the current admin. Errors if uninitialized.
    pub fn get_admin(env: &AuditEnv) -> (r: Result<Address, Error>)
        ensures
            r == (match env@.admin {
                Some(a) => Ok(a),
                None => Err(Error::NotInitialized),
            }),
    {
        match env.admin {
            Some(a) => Ok(a),
            None => Err(Error::NotInitialized),
        }
    }

    fn assert_admin(env: &AuditEnv, admin: Address) -> (r: Result<(), Error>)
        ensures
            match admin_error(env@, admin) {
                Some(e) => r == Err::<(), Error>(e),
                None => r is Ok,
            },
    {
        match env.admin {
            None => Err(Error::NotInitialized),
            Some(a) => if a == admin {
                Ok(())
            } else {
                Err(Error::Unauthorized)
            },
        }
    }

    // -----------------------------------------------------------------------
    // Retention policy
    // -----------------------------------------------------------------------

    /// Set the retention policy. Admin-only.
    pub fn set_retention_policy(env: &mut AuditEnv, admin: Address, policy: RetentionPolicy) -> (r:
        Result<Symbol, Error>)
        requires
            old(env)@.is_admin(admin) ==> old(env)@.authorized(admin),
        ensures
            effect(policy_set(old(env)@, admin, policy), r, old(env)@, final(env)@),
    {
        match Self::assert_admin(env, admin) {
            Ok(()) => {},
            Err(e) => return Err(e),
        }
        env.policy = policy;
        assert(env@ =~= policy_set(old(env)@, admin, policy)->Ok_0.0);
        Ok(symbol_short("ok"))
    }

    /// Read the current retention policy. Returns the unbounded default if
    /// not configured.
    pub fn get_retention_policy(env: &AuditEnv) -> (p: RetentionPolicy)
        ensures
            p == env@.policy,
    {
        env.policy
    }

    // -----------------------------------------------------------------------
    // Logging
    // -----------------------------------------------------------------------

    /// The bucket of a sequence ID.
    pub fn bucket(seq: u64) -> (b: u32)
        requires
            seq >= 1,
        ensures
            b == bucket_of(seq),
    {
        #[verifier::truncate]
        (((seq - 1) / BUCKET_SIZE as u64) as u32)
    }

    /// Append one sequence id to a bucket's index.
    fn append_index<K: TableKey + Copy>(index: &mut Table<K, Vec<u64>>, k: K, seq: u64)
        ensures
            final(index)@ == indexed(old(index)@, k, seq),
    {
        let mut bucket: Vec<u64> = match index.get(k) {
            Some(v) => copy_vec(v),
            None => {
                let v: Vec<u64> = Vec::new();
                assert(v@ =~= Seq::empty());
                v
            },
        };
        bucket.push(seq);
        index.set(k, bucket);
    }

    /// Append a single audit event. Returns the assigned sequence id.
    ///
    /// Authentication is the responsibility of the caller: the immediate
    /// caller is trusted to have already authorized `actor`.
    pub fn log_event(
        env: &mut AuditEnv,
        actor: Address,
        event_type: AuditEventType,
        portfolio: Symbol,
        permissions_flags: u32,
        state_before: StateSnapshot,
        state_after: StateSnapshot,
        outcome: Symbol,
        detail: String,
    ) -> (seq: u64)
        requires
            old(env)@.wf(),
            old(env)@.next_seq + 1 < u64::MAX,
            actor.valid(),
            hashable(detail@, state_before@, state_after@),
        ensures
            final(env)@ == logged(
                old(env)@,
                EventData {
                    actor,
                    event_type,
                    portfolio,
                    permissions: permissions_flags,
                    state_before: state_before@,
                    state_after: state_after@,
                    outcome,
                    detail: detail@,
                },
            ),
            seq == old(env)@.next_seq + 1,
            final(env)@.wf(),
    {
        let ghost data = EventData {
            actor,
            event_type,
            portfolio,
            permissions: permissions_flags,
            state_before: state_before@,
            state_after: state_after@,
            outcome,
            detail: detail@,
        };
        let prev: Word32 = match env.head {
            Some(h) => h,
            None => make_chain_origin(),
        };
        let seq: u64 = env.next_seq + 1;
        let timestamp: u64 = env.timestamp;
        let payload: Vec<u8> = entry_payload(
            seq,
            timestamp,
            event_type.code(),
            permissions_flags,
            actor,
            portfolio,
            outcome,
            &detail,
            &state_before,
            &state_after,
        );
        let hash: Word32 = if seq == 1 {
            first_chain_hash(&payload)
        } else {
            chain_hash(prev, &payload)
        };
        let entry = AuditLog {
            seq,
            timestamp,
            event_type,
            actor,
            permissions: permissions_flags,
            portfolio,
            state_before,
            state_after,
            outcome,
            detail,
            hash,
        };
        assert(entry@ =~= entry_for(old(env)@, data));
        env.entries.set(seq, entry);
        env.next_seq = seq;
        env.head = Some(hash);
        env.entry_count = env.entry_count + 1;
        let b: u32 = Self::bucket(seq);
        Self::append_index(&mut env.by_type, (event_type, b), seq);
        Self::append_index(&mut env.by_actor, (actor, b), seq);
        Self::append_index(&mut env.by_portfolio, (portfolio, b), seq);
        Self::append_index(&mut env.by_outcome, (outcome, b), seq);
        assert(env@ =~= logged(old(env)@, data));
        seq
    }

    // -----------------------------------------------------------------------
    // Query
    // -----------------------------------------------------------------------

    /// Read entries matching the supplied [`LogQuery`]. Sorted by `seq`
    /// ascending. Capped by `q.limit`.
    pub fn query(env: &AuditEnv, q: &LogQuery) -> (r: Vec<AuditLog>)
        requires
            env@.wf(),
        ensures
            views(r@) == found(env@, *q),
    {
        let mut out: Vec<AuditLog> = Vec::new();
        let limit: usize = if q.limit == 0 {
            50
        } else {
            q.limit as usize
        };
        let first: u64 = env.first_seq;
        let next: u64 = env.next_seq;
        let mut seq: u64 = first;
        assert(out@.map_values(|e: AuditLog| e@) =~= accepted(
            env@.entries,
            *q,
            first as int,
            seq - 1,
        ));
        while seq <= next && out.len() < limit
            invariant
                env@.wf(),
                first == env@.first_seq,
                next == env@.next_seq,
                first <= seq <= next + 1,
                limit == q.cap(),
                out@.len() <= limit,
                out@.map_values(|e: AuditLog| e@) == accepted(
                    env@.entries,
                    *q,
                    first as int,
                    seq - 1,
                ),
            decreases next + 1 - seq,
        {
            let ghost so_far = out@;
            match env.entries.get(seq) {
                Some(entry) => {
                    if q.matches(entry) {
                        out.push(entry.copy());
                        assert(out@.map_values(|e: AuditLog| e@) =~= so_far.map_values(
                            |e: AuditLog| e@,
                        ).push(env@.entries[seq]));
                    }
                },
                None => {},
            }
            seq += 1;
        }
        proof {
            let views = out@.map_values(|e: AuditLog| e@);
            lemma_accepted_prefix(env@.entries, *q, first as int, seq - 1, next as int);
            let all = accepted(env@.entries, *q, first as int, next as int);
            assert(views =~= found(env@, *q));
        }
        out
    }

    // -----------------------------------------------------------------------
    // Integrity verification
    // -----------------------------------------------------------------------

    /// Verify that the recorded chain head matches the expected hash. Returns
    /// `true` on match; `false` if any tampering is detected or the chain
    /// is empty.
    pub fn verify_integrity(env: &AuditEnv, expected_head: Word32) -> (b: bool)
        ensures
            b == (env@.first_seq <= env@.next_seq && env@.head == Some(expected_head)),
    {
        match env.head {
            Some(h) => env.first_seq <= env.next_seq && h == expected_head,
            None => false,
        }
    }

    /// Return the recorded chain head (the most-recent entry's hash, or the
    /// chain origin if there is none).
    pub fn integrity_head(env: &AuditEnv) -> (h: Word32)
        ensures
            h == (match env@.head {
                Some(x) => x,
                None => chain_origin(),
            }),
    {
        match env.head {
            Some(h) => h,
            None => make_chain_origin(),
        }
    }

    fn rehash(entry: &AuditLog, prev: Word32) -> (h: Word32)
        requires
            hashable(entry@.detail, entry@.state_before, entry@.state_after),
        ensures
            h == link(prev, entry_bytes(entry@)),
    {
        let payload: Vec<u8> = entry_payload(
            entry.seq,
            entry.timestamp,
            entry.event_type.code(),
            entry.permissions,
            entry.actor,
            entry.portfolio,
            entry.outcome,
            &entry.detail,
            &entry.state_before,
            &entry.state_after,
        );
        chain_hash(prev, &payload)
    }

    /// Recompute the chain head from scratch over the retained entries and
    /// compare to the stored value. Useful for routine integrity audits.
    pub fn full_recompute_integrity(env: &AuditEnv) -> (b: bool)
        requires
            env@.next_seq < u64::MAX,
            forall|seq: u64| #[trigger] env@.entries.contains_key(seq) ==> env@.can_hash(seq),
        ensures
            b == intact(env@),
    {
        let first: u64 = env.first_seq;
        let next: u64 = env.next_seq;
        let mut prev: Word32 = make_chain_origin();
        let mut seq: u64 = first;
        while seq <= next
            invariant
                first == env@.first_seq,
                next == env@.next_seq,
                next < u64::MAX,
                first <= seq,
                seq <= next + 1 || seq == first,
                forall|n: u64| #[trigger] env@.entries.contains_key(n) ==> env@.can_hash(n),
                unbroken(env@.entries, first as int, seq - 1),
                prev == chain_over(env@.entries, first as int, seq - 1),
            decreases next + 1 - seq,
        {
            match env.entries.get(seq) {
                Some(e) => {
                    prev = Self::rehash(e, prev);
                },
                None => {
                    assert(!env@.entries.contains_key(seq));
                    return false;
                },
            }
            seq += 1;
        }
        proof {
            if seq == first && seq > next {
                assert(chain_over(env@.entries, first as int, next as int) == chain_origin());
            }
        }
        match env.head {
            Some(h) => h == prev,
            None => true,
        }
    }

    // -----------------------------------------------------------------------
    // Retention
    // -----------------------------------------------------------------------

    /// Delete entries older than the retention policy. Admin-only.
    ///
    /// Returns the number of entries pruned.
    pub fn prune_old(env: &mut AuditEnv, admin: Address) -> (r: Result<u32, Error>)
        requires
            old(env)@.is_admin(admin) ==> old(env)@.authorized(admin),
            old(env)@.wf(),
            old(env)@.entry_count <= u32::MAX,
        ensures
            effect(pruned(old(env)@, admin), r, old(env)@, final(env)@),
            final(env)@.wf(),
    {
        match Self::assert_admin(env, admin) {
            Ok(()) => {},
            Err(e) => return Err(e),
        }
        let policy: RetentionPolicy = env.policy;
        if policy.is_unbounded() {
            return Err(Error::NoRetentionPolicy);
        }
        let first: u64 = env.first_seq;
        let next: u64 = env.next_seq;
        let mut floor: u64 = first;
        if policy.max_age_seconds > 0 {
            let cutoff: u64 = env.timestamp.saturating_sub(policy.max_age_seconds);
            floor = Self::find_age_floor(env, cutoff);
        }
        proof {
            lemma_age_floor_range(
                env@.entries,
                first as int,
                next as int,
                age_cutoff(env@.timestamp, policy.max_age_seconds),
            );
        }
        if policy.max_entries > 0 && next + 1 - floor > policy.max_entries {
            floor = next + 1 - policy.max_entries;
        }
        assert(floor == floor_by_policy(old(env)@));
        Self::drop_below(env, floor);
        env.first_seq = floor;
        env.entry_count = next + 1 - floor;
        let head: Word32 = Self::rehash_all(env, floor, next);
        env.head = Some(head);
        proof {
            let s = pruned(old(env)@, admin)->Ok_0.0;
            assert(env@ =~= s);
        }
        Ok((floor - first) as u32)
    }

    fn find_age_floor(env: &AuditEnv, cutoff: u64) -> (floor: u64)
        requires
            env@.wf(),
        ensures
            floor == age_floor(
                env@.entries,
                env@.first_seq as int,
                env@.next_seq as int,
                cutoff,
            ),
    {
        let next: u64 = env.next_seq;
        let mut s: u64 = env.first_seq;
        while s <= next
            invariant
                env@.wf(),
                next == env@.next_seq,
                env@.first_seq <= s <= next + 1,
                age_floor(env@.entries, s as int, next as int, cutoff) == age_floor(
                    env@.entries,
                    env@.first_seq as int,
                    next as int,
                    cutoff,
                ),
            ensures
                s == age_floor(env@.entries, env@.first_seq as int, next as int, cutoff),
            decreases next + 1 - s,
        {
            assert(env@.entries.contains_key(s));
            let old_entry: bool = match env.entries.get(s) {
                Some(e) => e.timestamp < cutoff,
                None => false,
            };
            if !old_entry {
                break;
            }
            s += 1;
        }
        s
    }

    fn drop_below(env: &mut AuditEnv, floor: u64)
        requires
            old(env)@.wf(),
            old(env)@.first_seq <= floor <= old(env)@.next_seq + 1,
        ensures
            final(env)@ == (AuditState { entries: kept(old(env)@.entries, floor as int), ..old(env)@ }),
    {
        let first: u64 = env.first_seq;
        let mut s: u64 = first;
        assert(env@.entries =~= kept(old(env)@.entries, s as int));
        assert(env@ =~= (AuditState { entries: kept(old(env)@.entries, s as int), ..old(env)@ }));
        while s < floor
            invariant
                old(env)@.wf(),
                first == old(env)@.first_seq,
                first <= s <= floor,
                env@ == (AuditState { entries: kept(old(env)@.entries, s as int), ..old(env)@ }),
            decreases floor - s,
        {
            env.entries.remove(s);
            s += 1;
            assert(env@.entries =~= kept(old(env)@.entries, s as int));
            assert(env@ =~= (AuditState { entries: kept(old(env)@.entries, s as int), ..old(env)@ }));
        }
    }

    fn rehash_all(env: &AuditEnv, from: u64, to: u64) -> (h: Word32)
        requires
            to < u64::MAX,
            from <= to + 1,
            forall|seq: u64|
                from <= seq <= to ==> #[trigger] env@.entries.contains_key(seq) && env@.can_hash(
                    seq,
                ),
        ensures
            h == chain_over(env@.entries, from as int, to as int),
    {
        let mut prev: Word32 = make_chain_origin();
        let mut s: u64 = from;
        while s <= to
            invariant
                to < u64::MAX,
                from <= s <= to + 1,
                forall|seq: u64|
                    from <= seq <= to ==> #[trigger] env@.entries.contains_key(seq)
                        && env@.can_hash(seq),
                prev == chain_over(env@.entries, from as int, s - 1),
            decreases to + 1 - s,
        {
            assert(env@.entries.contains_key(s));
            match env.entries.get(s) {
                Some(e) => {
                    prev = Self::rehash(e, prev);
                },
                None => {},
            }
            s += 1;
        }
        prev
    }

    // -----------------------------------------------------------------------
    // Exports
    // -----------------------------------------------------------------------

    /// Export the result of a [`LogQuery`] as JSON lines.
    pub fn export_jsonl(env: &AuditEnv, q: &LogQuery) -> (rows: Vec<Vec<u8>>)
        requires
            env@.wf(),
        ensures
            rows_view(rows@) == found(env@, *q).map_values(|e: AuditLogView| json_row(e)),
    {
        let entries: Vec<AuditLog> = Self::query(env, q);
        format_jsonl(&entries)
    }

    /// Export the result of a [`LogQuery`] as CSV (header row first).
    pub fn export_csv(env: &AuditEnv, q: &LogQuery) -> (rows: Vec<Vec<u8>>)
        requires
            env@.wf(),
        ensures
            rows_view(rows@) == seq![ascii(CSV_HEADER@)] + found(env@, *q).map_values(
                |e: AuditLogView| csv_row(e),
            ),
    {
        let entries: Vec<AuditLog> = Self::query(env, q);
        format_csv(&entries)
    }

    /// Export the result of a [`LogQuery`] as JSON lines with state snapshots
    /// and chain hashes.
    pub fn export_jsonl_full(env: &AuditEnv, q: &LogQuery) -> (rows: Vec<Vec<u8>>)
        requires
            env@.wf(),
        ensures
            rows_view(rows@) == found(env@, *q).map_values(|e: AuditLogView| json_full_row(e)),
    {
        let entries: Vec<AuditLog> = Self::query(env, q);
        format_jsonl_full(&entries)
    }

    /// Export the result of a [`LogQuery`] as CSV with state snapshots and
    /// chain hashes (header row first).
    pub fn export_csv_full(env: &AuditEnv, q: &LogQuery) -> (rows: Vec<Vec<u8>>)
        requires
            env@.wf(),
        ensures
            rows_view(rows@) == seq![ascii(CSV_FULL_HEADER@)] + found(env@, *q).map_values(
                |e: AuditLogView| csv_full_row(e),
            ),
    {
        let entries: Vec<AuditLog> = Self::query(env, q);
        format_csv_full(&entries)
    }

    /// Compute the digest that gets signed for the result of a [`LogQuery`].
    pub fn compute_export_digest(env: &AuditEnv, q: &LogQuery) -> (d: Word32)
        requires
            env@.wf(),
            exportable(found(env@, *q).len()),
        ensures
            d == digest_of(found(env@, *q)),
    {
        let entries: Vec<AuditLog> = Self::query(env, q);
        assert(entries@.len() == views(entries@).len());
        compute_digest(&entries)
    }

    /// Verify a signed export, up to the signature itself, which is returned
    /// for the host to verify.
    pub fn verify_export(export: &SignedExport, public_key: Word32) -> (r: Result<
        SignatureClaim,
        ExportError,
    >)
        requires
            exportable(export.entries@.len()),
        ensures
            r == export_check(
                views(export.entries@),
                export.digest,
                export.signature,
                export.signer,
                public_key,
            ),
    {
        verify_export(export, public_key)
    }
}

pub proof fn lemma_age_floor_range(
    entries: Map<u64, AuditLogView>,
    from: int,
    to: int,
    cutoff: u64,
)
    requires
        from <= to + 1,
    ensures
        from <= age_floor(entries, from, to, cutoff) <= to + 1,
    decreases to - from + 1,
{
    if from <= to {
        lemma_age_floor_range(entries, from + 1, to, cutoff);
    }
}

pub proof fn lemma_accepted_prefix(
    entries: Map<u64, AuditLogView>,
    q: LogQuery,
    from: int,
    mid: int,
    to: int,
)
    requires
        mid <= to,
    ensures
        accepted(entries, q, from, mid).len() <= accepted(entries, q, from, to).len(),
        accepted(entries, q, from, to).take(accepted(entries, q, from, mid).len() as int)
            == accepted(entries, q, from, mid),
    decreases to - mid,
{
    let a = accepted(entries, q, from, mid);
    let b = accepted(entries, q, from, to);
    if mid < to {
        lemma_accepted_prefix(entries, q, from, mid, to - 1);
        let c = accepted(entries, q, from, to - 1);
        if to < from {
            assert(b.take(a.len() as int) =~= a);
        } else {
            assert(b.take(a.len() as int) =~= c.take(a.len() as int));
        }
    } else {
        assert(b.take(a.len() as int) =~= a);
    }
}

} // verus!
