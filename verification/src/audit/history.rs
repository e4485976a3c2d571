//! What holds of the audit log after any sequence of calls.

use vstd::prelude::*;

use crate::audit::checksum::{entry_bytes, hashable};
use crate::audit::contract::{
    entry_for, initialized, intact, logged, policy_set, pruned, unbroken, EventData,
};
use crate::audit::laws::{
    a_payload_tells_its_entry, an_untouched_log_is_intact, is_collision, lemma_floors,
    logging_keeps_the_chain, pruning_keeps_the_chain, tampering_changes_the_head,
};
use crate::audit::records::{AuditLogView, RetentionPolicy};
use crate::audit::state::AuditState;
use crate::base::address::Address;

verus! {

/// A call that can change the log, or time passing.
pub enum Call {
    Wait { until: u64 },
    Initialize { admin: Address },
    SetPolicy { admin: Address, policy: RetentionPolicy },
    Log { event: EventData },
    Prune { admin: Address },
}

/// The state after one call, which is the state before it where the call was refused.
pub open spec fn step(s: AuditState, call: Call) -> AuditState {
    match call {
        Call::Wait { until } => AuditState { timestamp: until, ..s },
        Call::Initialize { admin } => match initialized(s, admin) {
            Ok((t, _)) => t,
            Err(_) => s,
        },
        Call::SetPolicy { admin, policy } => match policy_set(s, admin, policy) {
            Ok((t, _)) => t,
            Err(_) => s,
        },
        Call::Log { event } => logged(s, event),
        Call::Prune { admin } => match pruned(s, admin) {
            Ok((t, _)) => t,
            Err(_) => s,
        },
    }
}

/// An event can be logged: there is a sequence ID for it, its actor is an
/// address, and it can be hashed.
pub open spec fn can_log(s: AuditState, event: EventData) -> bool {
    &&& s.next_seq + 1 < u64::MAX
    &&& event.actor.valid()
    &&& hashable(event.detail, event.state_before, event.state_after)
}

/// The state after a sequence of calls.
pub open spec fn run(s: AuditState, calls: Seq<Call>) -> AuditState
    decreases calls.len(),
{
    if calls.len() == 0 {
        s
    } else {
        step(run(s, calls.drop_last()), calls.last())
    }
}

/// Every event of the sequence can be logged when its turn comes.
pub open spec fn all_can_log(s: AuditState, calls: Seq<Call>) -> bool
    decreases calls.len(),
{
    calls.len() > 0 ==> all_can_log(s, calls.drop_last()) && (calls.last() matches Call::Log {
        event,
    } ==> can_log(run(s, calls.drop_last()), event))
}

/// One call keeps the log well-formed and its head that of the chain over the
/// retained entries, and gives no sequence ID out twice.
pub proof fn calls_keep_the_chain(s: AuditState, call: Call)
    requires
        s.wf(),
        s.chained(),
        call matches Call::Log { event } ==> can_log(s, event),
    ensures
        step(s, call).wf(),
        step(s, call).chained(),
        step(s, call).next_seq == if call is Log {
            s.next_seq + 1
        } else {
            s.next_seq as int
        },
        forall|seq: u64| #[trigger]
            step(s, call).entries.contains_key(seq) ==> (s.entries.contains_key(seq)
                && step(s, call).entries[seq] == s.entries[seq]) || (call is Log && seq
                == s.next_seq + 1),
{
    match call {
        Call::Log { event } => {
            let t = step(s, call);
            logging_keeps_the_chain(s, event);
            let e = entry_for(s, event);
            assert forall|seq: u64| #[trigger] t.entries.contains_key(seq) implies t.entries[seq].seq
                == seq && t.can_hash(seq) && t.entries[seq].actor.valid() by {
                if seq != e.seq {
                    assert(s.entries.contains_key(seq));
                    assert(s.can_hash(seq));
                }
            }
            assert forall|seq: u64| #[trigger]
                t.entries.contains_key(seq) <==> t.first_seq <= seq <= t.next_seq by {
                assert(s.entries.contains_key(seq) <==> s.first_seq <= seq <= s.next_seq);
            }
        },
        Call::Prune { admin } => {
            if pruned(s, admin) is Ok {
                let t = step(s, call);
                pruning_keeps_the_chain(s, admin);
                lemma_floors(s);
                assert forall|seq: u64| #[trigger]
                    t.entries.contains_key(seq) implies t.entries[seq].seq == seq && t.can_hash(seq)
                    && t.entries[seq].actor.valid() by {
                    assert(s.entries.contains_key(seq));
                    assert(s.can_hash(seq));
                }
                assert forall|seq: u64| #[trigger]
                    t.entries.contains_key(seq) <==> t.first_seq <= seq <= t.next_seq by {
                    assert(s.entries.contains_key(seq) <==> s.first_seq <= seq <= s.next_seq);
                }
            }
        },
        _ => {
            let t = step(s, call);
            assert(t.entries == s.entries);
            assert forall|seq: u64| #[trigger] t.entries.contains_key(seq) implies t.can_hash(
                seq,
            ) by {
                assert(s.can_hash(seq));
            }
        },
    }
}

proof fn lemma_history(timestamp: u64, calls: Seq<Call>)
    requires
        all_can_log(AuditState::fresh(timestamp), calls),
    ensures
        run(AuditState::fresh(timestamp), calls).wf(),
        run(AuditState::fresh(timestamp), calls).chained(),
    decreases calls.len(),
{
    if calls.len() > 0 {
        lemma_history(timestamp, calls.drop_last());
        calls_keep_the_chain(
            run(AuditState::fresh(timestamp), calls.drop_last()),
            calls.last(),
        );
    }
}

/// The entries were altered: one is missing, or one that can be hashed differs
/// in more than the hash that is written into it.
pub open spec fn is_altered(s: AuditState, entries: Map<u64, AuditLogView>, seq: u64) -> bool {
    &&& s.entries.contains_key(seq)
    &&& !entries.contains_key(seq) || {
        &&& entries[seq].actor.valid()
        &&& hashable(entries[seq].detail, entries[seq].state_before, entries[seq].state_after)
        &&& s.entries[seq] != (AuditLogView { hash: s.entries[seq].hash, ..entries[seq] })
    }
}

/// After any sequence of calls the recomputation confirms the log; and once an
/// entry was altered or deleted behind the contract's back it does not, unless
/// two inputs of SHA-256 have the same hash.
pub proof fn recomputation_tells_tampering(
    timestamp: u64,
    calls: Seq<Call>,
    entries: Map<u64, AuditLogView>,
    seq: u64,
)
    requires
        all_can_log(AuditState::fresh(timestamp), calls),
    ensures
        intact(run(AuditState::fresh(timestamp), calls)),
        ({
            let s = run(AuditState::fresh(timestamp), calls);
            is_altered(s, entries, seq) ==> !intact(AuditState { entries, ..s }) || exists|
                x: Seq<u8>,
                y: Seq<u8>,
            | #[trigger] is_collision(x, y)
        }),
{
    let s = run(AuditState::fresh(timestamp), calls);
    lemma_history(timestamp, calls);
    an_untouched_log_is_intact(s);
    if is_altered(s, entries, seq) {
        let t = AuditState { entries, ..s };
        assert(s.first_seq <= seq <= s.next_seq);
        if entries.contains_key(seq) {
            if entry_bytes(s.entries[seq]) == entry_bytes(entries[seq]) {
                assert(s.can_hash(seq));
                a_payload_tells_its_entry(s.entries[seq], entries[seq]);
            }
            tampering_changes_the_head(s.entries, entries, s.first_seq, s.next_seq, seq);
            assert(s.head is Some);
        } else {
            assert(!unbroken(entries, s.first_seq as int, s.next_seq as int));
        }
    }
}

} // verus!
