//! Storage and ledger data of the audit log.

use vstd::prelude::*;

use crate::audit::checksum::{entry_bytes, hashable, link};
use crate::audit::records::{
    chain_origin, AuditEventType, AuditLog, AuditLogView, RetentionPolicy,
};
use crate::base::address::Address;
use crate::base::bytes::Word32;
use crate::base::symbol::Symbol;
use crate::base::table::Table;
use crate::base::vecs::has_address;

verus! {

/// The storage of the contract and the ledger around one call.
#[derive(Debug)]
pub struct AuditEnv {
    /// Ledger time in seconds.
    pub timestamp: u64,
    /// Addresses that authorised the call.
    pub auths: Vec<Address>,
    /// Admin address set by `initialize`.
    pub admin: Option<Address>,
    /// Retention policy.
    pub policy: RetentionPolicy,
    /// Sequence ID of the newest entry; 0 before the first.
    pub next_seq: u64,
    /// Head hash of the entry chain.
    pub head: Option<Word32>,
    /// Floor sequence ID still stored (entries below are pruned).
    pub first_seq: u64,
    /// Total number of entries currently retained.
    pub entry_count: u64,
    /// Entries by sequence ID.
    pub entries: Table<u64, AuditLog>,
    /// Sequence IDs by event type and bucket.
    pub by_type: Table<(AuditEventType, u32), Vec<u64>>,
    /// Sequence IDs by actor and bucket.
    pub by_actor: Table<(Address, u32), Vec<u64>>,
    /// Sequence IDs by portfolio and bucket.
    pub by_portfolio: Table<(Symbol, u32), Vec<u64>>,
    /// Sequence IDs by outcome and bucket.
    pub by_outcome: Table<(Symbol, u32), Vec<u64>>,
}

/// What a `AuditEnv` holds, with its tables as maps and its lists as sequences.
#[verifier::ext_equal]
pub struct AuditState {
    pub timestamp: u64,
    pub auths: Seq<Address>,
    pub admin: Option<Address>,
    pub policy: RetentionPolicy,
    pub next_seq: u64,
    pub head: Option<Word32>,
    pub first_seq: u64,
    pub entry_count: u64,
    pub entries: Map<u64, AuditLogView>,
    pub by_type: Map<(AuditEventType, u32), Seq<u64>>,
    pub by_actor: Map<(Address, u32), Seq<u64>>,
    pub by_portfolio: Map<(Symbol, u32), Seq<u64>>,
    pub by_outcome: Map<(Symbol, u32), Seq<u64>>,
}

impl View for AuditEnv {
    type V = AuditState;

    open spec fn view(&self) -> AuditState {
        AuditState {
            timestamp: self.timestamp,
            auths: self.auths@,
            admin: self.admin,
            policy: self.policy,
            next_seq: self.next_seq,
            head: self.head,
            first_seq: self.first_seq,
            entry_count: self.entry_count,
            entries: self.entries@,
            by_type: self.by_type@,
            by_actor: self.by_actor@,
            by_portfolio: self.by_portfolio@,
            by_outcome: self.by_outcome@,
        }
    }
}

/// The head of a chain that starts at the origin and runs over the entries
/// from `from` to `to`.
pub open spec fn chain_over(entries: Map<u64, AuditLogView>, from: int, to: int) -> Word32
    decreases to - from + 1,
{
    if to < from {
        chain_origin()
    } else {
        link(chain_over(entries, from, to - 1), entry_bytes(entries[to as u64]))
    }
}

impl AuditState {
    /// The state of a contract that was never called.
    pub open spec fn fresh(timestamp: u64) -> AuditState {
        AuditState {
            timestamp,
            auths: Seq::empty(),
            admin: None,
            policy: RetentionPolicy { max_entries: 0, max_age_seconds: 0 },
            next_seq: 0,
            head: None,
            first_seq: 1,
            entry_count: 0,
            entries: Map::empty(),
            by_type: Map::empty(),
            by_actor: Map::empty(),
            by_portfolio: Map::empty(),
            by_outcome: Map::empty(),
        }
    }

    /// The address authorised the call.
    pub open spec fn authorized(self, a: Address) -> bool {
        self.auths.contains(a)
    }

    /// The address is the administrator.
    pub open spec fn is_admin(self, a: Address) -> bool {
        self.admin == Some(a)
    }

    /// The log holds exactly the entries between its floor and its newest
    /// entry, each under its own sequence ID and with a valid actor, and
    /// counts them.
    pub open spec fn wf(self) -> bool {
        &&& 1 <= self.first_seq <= self.next_seq + 1
        &&& self.next_seq < u64::MAX
        &&& self.entry_count == self.next_seq + 1 - self.first_seq
        &&& forall|seq: u64| #[trigger]
            self.entries.contains_key(seq) <==> self.first_seq <= seq <= self.next_seq
        &&& forall|seq: u64| #[trigger]
            self.entries.contains_key(seq) ==> self.entries[seq].seq == seq && self.can_hash(seq)
                && self.entries[seq].actor.valid()
    }

    /// The entry's payload can be hashed.
    pub open spec fn can_hash(self, seq: u64) -> bool {
        hashable(
            self.entries[seq].detail,
            self.entries[seq].state_before,
            self.entries[seq].state_after,
        )
    }

    /// The stored head is that of the chain over the retained entries.
    pub open spec fn chained(self) -> bool {
        let expected = chain_over(self.entries, self.first_seq as int, self.next_seq as int);
        match self.head {
            Some(h) => h == expected,
            None => self.next_seq + 1 == self.first_seq,
        }
    }
}

impl AuditEnv {
    /// The storage of a contract that was never called.
    pub fn new(timestamp: u64) -> (env: AuditEnv)
        ensures
            env@ == AuditState::fresh(timestamp),
            env@.wf(),
            env@.chained(),
    {
        let env = AuditEnv {
            timestamp,
            auths: Vec::new(),
            admin: None,
            policy: RetentionPolicy { max_entries: 0, max_age_seconds: 0 },
            next_seq: 0,
            head: None,
            first_seq: 1,
            entry_count: 0,
            entries: Table::new(),
            by_type: Table::new(),
            by_actor: Table::new(),
            by_portfolio: Table::new(),
            by_outcome: Table::new(),
        };
        assert(env@ =~= AuditState::fresh(timestamp));
        env
    }

    /// Whether the address authorised the call.
    pub fn is_authorized(&self, a: Address) -> (b: bool)
        ensures
            b == self@.authorized(a),
    {
        has_address(&self.auths, a)
    }
}

} // verus!
