//! Data types of the audit log.

use vstd::prelude::*;

use crate::base::address::Address;
use crate::base::bytes::Word32;
use crate::base::symbol::Symbol;
use crate::base::table::TableKey;
use crate::base::vecs::copy_vec;

verus! {

/// Number of sequence ids packed into a single bucket index.
pub const BUCKET_SIZE: u32 = 250;

/// Chain origin (genesis) hash: thirty-two zero bytes. The first entry's hash
/// is the SHA-256 hash of the chain origin followed by the entry's payload.
pub open spec fn chain_origin() -> Word32 {
    Word32 { hi: 0, lo: 0 }
}

/// The chain origin.
pub fn make_chain_origin() -> (w: Word32)
    ensures
        w == chain_origin(),
{
    Word32 { hi: 0, lo: 0 }
}

/// Errors returned by the audit contract.
#[derive(Clone, Copy, Debug, PartialEq, Eq, Structural)]
pub enum Error {
    /// Contract was not initialized.
    NotInitialized,
    /// Caller is not the admin.
    Unauthorized,
    /// `log_event` was called with an invalid event type for the requested
    /// permission set (currently unused, reserved for future use).
    InvalidEvent,
    /// Prune failed because the retention policy is unbounded.
    NoRetentionPolicy,
    /// Contract was already initialized.
    AlreadyInitialized,
}

impl Error {
    /// The number by which a caller outside knows the value.
    pub open spec fn spec_code(self) -> u32 {
        match self {
            Error::NotInitialized => 1,
            Error::Unauthorized => 2,
            Error::InvalidEvent => 3,
            Error::NoRetentionPolicy => 4,
            Error::AlreadyInitialized => 5,
        }
    }

    /// The number by which a caller outside knows the value.
    pub fn code(self) -> (n: u32)
        ensures
            n == self.spec_code(),
    {
        match self {
            Error::NotInitialized => 1,
            Error::Unauthorized => 2,
            Error::InvalidEvent => 3,
            Error::NoRetentionPolicy => 4,
            Error::AlreadyInitialized => 5,
        }
    }
}

/// Distinct event types that may be logged.
///
/// `Custom` is the catch-all variant for events that don't fit the predefined
/// categories. New variants should be appended (never re-ordered) for stable
/// serialization.
#[derive(Clone, Copy, Debug, PartialEq, Eq, PartialOrd, Ord, Structural)]
pub enum AuditEventType {
    /// Portfolio was rebalanced (manual or scheduled execution).
    Rebalance,
    /// Stake deposit (new principal added to a position).
    Stake,
    /// Normal unstake (no penalty applied).
    Unstake,
    /// Emergency unstake (penalty applied).
    EmergencyUnstake,
    /// Yield accrued to a position.
    YieldAccrual,
    /// External deposit into a portfolio.
    Deposit,
    /// External withdrawal from a portfolio.
    Withdrawal,
    /// Rebalance schedule created/updated/cancelled.
    ScheduleChange,
    /// Admin-level configuration change (alert threshold, default APR, etc.).
    AdminAction,
    /// Portfolio was created or initialized.
    PortfolioCreated,
    /// Role granted or revoked (RBAC change).
    RoleChange,
    /// Yield claimed by a staker.
    YieldClaim,
    /// Governance proposal submitted.
    GovernanceProposal,
    /// Governance vote cast.
    GovernanceVote,
    /// Treasury withdrawal or spending action.
    TreasuryAction,
    /// Emergency pause or unpause.
    EmergencyPause,
    /// Trade executed (order matched or batch filled).
    TradeExecution,
    /// Order placed on the order book.
    OrderPlaced,
    /// Order cancelled from the order book.
    OrderCancelled,
    /// Fee collected from a transaction.
    FeeCollection,
    /// Catch-all for events that don't fit a predefined type.
    Custom,
}

impl AuditEventType {
    /// The number by which a caller outside knows the value.
    pub open spec fn spec_code(self) -> u32 {
        match self {
            AuditEventType::Rebalance => 0,
            AuditEventType::Stake => 1,
            AuditEventType::Unstake => 2,
            AuditEventType::EmergencyUnstake => 3,
            AuditEventType::YieldAccrual => 4,
            AuditEventType::Deposit => 5,
            AuditEventType::Withdrawal => 6,
            AuditEventType::ScheduleChange => 7,
            AuditEventType::AdminAction => 8,
            AuditEventType::PortfolioCreated => 9,
            AuditEventType::RoleChange => 10,
            AuditEventType::YieldClaim => 11,
            AuditEventType::GovernanceProposal => 12,
            AuditEventType::GovernanceVote => 13,
            AuditEventType::TreasuryAction => 14,
            AuditEventType::EmergencyPause => 15,
            AuditEventType::TradeExecution => 16,
            AuditEventType::OrderPlaced => 17,
            AuditEventType::OrderCancelled => 18,
            AuditEventType::FeeCollection => 19,
            AuditEventType::Custom => 99,
        }
    }

    /// The number by which a caller outside knows the value.
    pub fn code(self) -> (n: u32)
        ensures
            n == self.spec_code(),
    {
        match self {
            AuditEventType::Rebalance => 0,
            AuditEventType::Stake => 1,
            AuditEventType::Unstake => 2,
            AuditEventType::EmergencyUnstake => 3,
            AuditEventType::YieldAccrual => 4,
            AuditEventType::Deposit => 5,
            AuditEventType::Withdrawal => 6,
            AuditEventType::ScheduleChange => 7,
            AuditEventType::AdminAction => 8,
            AuditEventType::PortfolioCreated => 9,
            AuditEventType::RoleChange => 10,
            AuditEventType::YieldClaim => 11,
            AuditEventType::GovernanceProposal => 12,
            AuditEventType::GovernanceVote => 13,
            AuditEventType::TreasuryAction => 14,
            AuditEventType::EmergencyPause => 15,
            AuditEventType::TradeExecution => 16,
            AuditEventType::OrderPlaced => 17,
            AuditEventType::OrderCancelled => 18,
            AuditEventType::FeeCollection => 19,
            AuditEventType::Custom => 99,
        }
    }
}

impl TableKey for AuditEventType {
    fn same(&self, other: &AuditEventType) -> (b: bool) {
        *self == *other
    }
}

/// A `(key, value)` pair inside a [`StateSnapshot`].
///
/// `key` is typically a logical label (e.g. asset `Symbol`) and `value` is a
/// signed numeric measurement (e.g. balance, weight, total).
#[derive(Clone, Copy, Debug, PartialEq, Eq, Structural)]
pub struct FieldEntry {
    pub key: Symbol,
    pub value: i128,
}

impl View for FieldEntry {
    type V = FieldEntry;

    open spec fn view(&self) -> FieldEntry {
        *self
    }
}

/// Snapshot of relevant state just before or after a state-changing event,
/// in the order in which the fields were appended.
#[derive(Clone, Debug, PartialEq, Eq)]
pub struct StateSnapshot {
    pub fields: Vec<FieldEntry>,
}

impl View for StateSnapshot {
    type V = Seq<FieldEntry>;

    open spec fn view(&self) -> Seq<FieldEntry> {
        self.fields@
    }
}

impl StateSnapshot {
    /// Build an empty snapshot.
    pub fn empty() -> (s: StateSnapshot)
        ensures
            s@ == Seq::<FieldEntry>::empty(),
    {
        let s = StateSnapshot { fields: Vec::new() };
        assert(s@ =~= Seq::<FieldEntry>::empty());
        s
    }

    /// Append a `(key, value)` field.
    pub fn push(&mut self, key: Symbol, value: i128)
        ensures
            final(self)@ == old(self)@.push(FieldEntry { key, value }),
    {
        self.fields.push(FieldEntry { key, value });
    }

    /// An equal snapshot of its own.
    pub fn copy(&self) -> (r: StateSnapshot)
        ensures
            r@ == self@,
    {
        StateSnapshot { fields: copy_vec(&self.fields) }
    }
}

/// One immutable audit-log entry.
///
/// `hash` is the SHA-256 chain hash:
/// `SHA-256(prev_hash || canonical_bytes(entry_excluding_hash))`. The hash
/// binds this entry to every prior entry in the chain (Merkle-style) so any
/// in-place tampering breaks verification downstream.
#[derive(Clone, Debug, PartialEq, Eq)]
pub struct AuditLog {
    /// Monotonically increasing sequence id assigned at log time.
    pub seq: u64,
    /// Ledger timestamp (seconds) at time of log.
    pub timestamp: u64,
    /// What happened.
    pub event_type: AuditEventType,
    /// Caller / signer that initiated the event. May be the contract itself
    /// when logging from a system path.
    pub actor: Address,
    /// Bitmask of permissions the actor asserted (admin, staker, treasury,
    /// etc.). Interpretation is policy-defined; we record the raw bitmask so
    /// off-chain consumers can decode it.
    pub permissions: u32,
    /// Portfolio or logical scope the event affects (e.g. portfolio id, or
    /// `GLOBAL` for whole-system events).
    pub portfolio: Symbol,
    /// State immediately before the event. Empty when not applicable.
    pub state_before: StateSnapshot,
    /// State immediately after the event. Empty when not applicable.
    pub state_after: StateSnapshot,
    /// Outcome symbol (e.g. `"ok"`, `"fail"`, `"PEN_APPL"`). Free-form but
    /// should be one of a known set per event type to keep queries consistent.
    pub outcome: Symbol,
    /// Optional human-readable detail.
    pub detail: String,
    /// SHA-256 chain hash binding this entry to the previous entry's hash.
    pub hash: Word32,
}

/// What a `AuditLog` holds, with its lists as sequences.
#[verifier::ext_equal]
pub struct AuditLogView {
    pub seq: u64,
    pub timestamp: u64,
    pub event_type: AuditEventType,
    pub actor: Address,
    pub permissions: u32,
    pub portfolio: Symbol,
    pub state_before: Seq<FieldEntry>,
    pub state_after: Seq<FieldEntry>,
    pub outcome: Symbol,
    pub detail: Seq<char>,
    pub hash: Word32,
}

impl View for AuditLog {
    type V = AuditLogView;

    open spec fn view(&self) -> AuditLogView {
        AuditLogView {
            seq: self.seq,
            timestamp: self.timestamp,
            event_type: self.event_type,
            actor: self.actor,
            permissions: self.permissions,
            portfolio: self.portfolio,
            state_before: self.state_before@,
            state_after: self.state_after@,
            outcome: self.outcome,
            detail: self.detail@,
            hash: self.hash,
        }
    }
}

impl AuditLog {
    /// An equal value of its own.
    pub fn copy(&self) -> (r: AuditLog)
        ensures
            r@ == self@,
    {
        AuditLog {
            seq: self.seq,
            timestamp: self.timestamp,
            event_type: self.event_type,
            actor: self.actor,
            permissions: self.permissions,
            portfolio: self.portfolio,
            state_before: self.state_before.copy(),
            state_after: self.state_after.copy(),
            outcome: self.outcome,
            detail: self.detail.clone(),
            hash: self.hash,
        }
    }
}

/// Admin-configurable retention policy.
///
/// Either field `== 0` means "no cap". When at least one cap is configured,
/// the admin-triggered `prune_old` enforces it.
#[derive(Clone, Copy, Debug, PartialEq, Eq, Structural)]
pub struct RetentionPolicy {
    /// Maximum number of entries to retain. 0 = no cap.
    pub max_entries: u64,
    /// Maximum age (seconds) of any retained entry. 0 = no cap.
    pub max_age_seconds: u64,
}

impl View for RetentionPolicy {
    type V = RetentionPolicy;

    open spec fn view(&self) -> RetentionPolicy {
        *self
    }
}

impl Default for RetentionPolicy {
    /// The policy without a cap.
    fn default() -> (p: RetentionPolicy)
        ensures
            p == (RetentionPolicy { max_entries: 0, max_age_seconds: 0 }),
    {
        RetentionPolicy { max_entries: 0, max_age_seconds: 0 }
    }
}

impl RetentionPolicy {
    /// No cap is configured.
    pub open spec fn unbounded(self) -> bool {
        self.max_entries == 0 && self.max_age_seconds == 0
    }

    /// Whether no cap is configured.
    pub fn is_unbounded(&self) -> (b: bool)
        ensures
            b == self.unbounded(),
    {
        self.max_entries == 0 && self.max_age_seconds == 0
    }
}

} // verus!
