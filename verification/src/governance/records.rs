//! Data types of the governance contract.

use vstd::prelude::*;

use crate::base::address::Address;
use crate::base::symbol::Symbol;
use crate::base::vecs::copy_vec;

verus! {

/// Lifecycle status of a governance proposal.
#[derive(Clone, Copy, Debug, PartialEq, Eq, PartialOrd, Ord, Structural)]
pub enum ProposalStatus {
    /// Proposal has been submitted and is awaiting the voting period to start.
    Submitted,
    /// Voting period is active.
    Voting,
    /// Voting ended; proposal passed quorum and majority.
    Passed,
    /// Voting ended; proposal did not meet quorum or majority.
    Defeated,
    /// Timelock delay is active before execution.
    Timelock,
    /// Proposal has been executed.
    Executed,
    /// Proposal was cancelled before execution.
    Cancelled,
    /// Proposal execution failed (reverted).
    ExecutionFailed,
}

impl ProposalStatus {
    /// The number by which a caller outside knows the value.
    pub open spec fn spec_code(self) -> u32 {
        match self {
            ProposalStatus::Submitted => 0,
            ProposalStatus::Voting => 1,
            ProposalStatus::Passed => 2,
            ProposalStatus::Defeated => 3,
            ProposalStatus::Timelock => 4,
            ProposalStatus::Executed => 5,
            ProposalStatus::Cancelled => 6,
            ProposalStatus::ExecutionFailed => 7,
        }
    }

    /// The number by which a caller outside knows the value.
    pub fn code(self) -> (n: u32)
        ensures
            n == self.spec_code(),
    {
        match self {
            ProposalStatus::Submitted => 0,
            ProposalStatus::Voting => 1,
            ProposalStatus::Passed => 2,
            ProposalStatus::Defeated => 3,
            ProposalStatus::Timelock => 4,
            ProposalStatus::Executed => 5,
            ProposalStatus::Cancelled => 6,
            ProposalStatus::ExecutionFailed => 7,
        }
    }
}

/// Type of action a proposal carries.
#[derive(Clone, Copy, Debug, PartialEq, Eq, PartialOrd, Ord, Structural)]
pub enum ProposalActionType {
    /// Change a governance parameter (quorum, voting period, etc.).
    ParameterChange,
    /// Treasury spending request.
    TreasurySpend,
    /// Protocol upgrade (WASM hash + migration steps).
    ProtocolUpgrade,
    /// Emergency action (pause/unpause).
    EmergencyAction,
    /// Reward distribution configuration.
    RewardDistribution,
    /// Custom free-form action.
    Custom,
}

impl ProposalActionType {
    /// The number by which a caller outside knows the value.
    pub open spec fn spec_code(self) -> u32 {
        match self {
            ProposalActionType::ParameterChange => 0,
            ProposalActionType::TreasurySpend => 1,
            ProposalActionType::ProtocolUpgrade => 2,
            ProposalActionType::EmergencyAction => 3,
            ProposalActionType::RewardDistribution => 4,
            ProposalActionType::Custom => 99,
        }
    }

    /// The number by which a caller outside knows the value.
    pub fn code(self) -> (n: u32)
        ensures
            n == self.spec_code(),
    {
        match self {
            ProposalActionType::ParameterChange => 0,
            ProposalActionType::TreasurySpend => 1,
            ProposalActionType::ProtocolUpgrade => 2,
            ProposalActionType::EmergencyAction => 3,
            ProposalActionType::RewardDistribution => 4,
            ProposalActionType::Custom => 99,
        }
    }
}

/// The direction a voter chose.
#[derive(Clone, Copy, Debug, PartialEq, Eq, PartialOrd, Ord, Structural)]
pub enum VoteDirection {
    For,
    Against,
    Abstain,
}

impl VoteDirection {
    /// The number by which a caller outside knows the value.
    pub open spec fn spec_code(self) -> u32 {
        match self {
            VoteDirection::For => 0,
            VoteDirection::Against => 1,
            VoteDirection::Abstain => 2,
        }
    }

    /// The number by which a caller outside knows the value.
    pub fn code(self) -> (n: u32)
        ensures
            n == self.spec_code(),
    {
        match self {
            VoteDirection::For => 0,
            VoteDirection::Against => 1,
            VoteDirection::Abstain => 2,
        }
    }
}

/// Status of a timelock entry.
#[derive(Clone, Copy, Debug, PartialEq, Eq, PartialOrd, Ord, Structural)]
pub enum TimelockStatus {
    /// Waiting for the delay to expire.
    Pending,
    /// Delay expired; ready to execute.
    Ready,
    /// Already executed.
    Executed,
    /// Cancelled before execution.
    Cancelled,
}

impl TimelockStatus {
    /// The number by which a caller outside knows the value.
    pub open spec fn spec_code(self) -> u32 {
        match self {
            TimelockStatus::Pending => 0,
            TimelockStatus::Ready => 1,
            TimelockStatus::Executed => 2,
            TimelockStatus::Cancelled => 3,
        }
    }

    /// The number by which a caller outside knows the value.
    pub fn code(self) -> (n: u32)
        ensures
            n == self.spec_code(),
    {
        match self {
            TimelockStatus::Pending => 0,
            TimelockStatus::Ready => 1,
            TimelockStatus::Executed => 2,
            TimelockStatus::Cancelled => 3,
        }
    }
}

/// A governance proposal submitted by a token holder.
#[derive(Clone, Copy, Debug, PartialEq, Eq, Structural)]
pub struct Proposal {
    /// Monotonically increasing proposal id.
    pub proposal_id: u64,
    /// Address of the proposer.
    pub proposer: Address,
    /// Title of the proposal (short symbol).
    pub title: Symbol,
    /// Description / rationale (free-form symbol).
    pub description: Symbol,
    /// Type of action this proposal carries.
    pub action_type: ProposalActionType,
    /// Encoded action payload.
    pub action_payload: Symbol,
    /// Current lifecycle status.
    pub status: ProposalStatus,
    /// Total tokens voted in favor.
    pub votes_for: i128,
    /// Total tokens voted against.
    pub votes_against: i128,
    /// Total tokens voted abstain.
    pub votes_abstain: i128,
    /// Number of distinct voters (for quorum counting).
    pub voter_count: u32,
    /// Ledger timestamp when the proposal was submitted.
    pub created_at: u64,
    /// Ledger timestamp when voting started.
    pub voting_starts: u64,
    /// Ledger timestamp when voting ended.
    pub voting_ends: u64,
    /// Ledger timestamp when timelock expires (0 if not yet timelocked).
    pub timelock_expiry: u64,
    /// Ledger timestamp when the proposal was executed (0 if not executed).
    pub executed_at: u64,
}

impl View for Proposal {
    type V = Proposal;

    open spec fn view(&self) -> Proposal {
        *self
    }
}

/// A single vote cast on a proposal.
#[derive(Clone, Copy, Debug, PartialEq, Eq, Structural)]
pub struct VoteRecord {
    /// Proposal this vote is for.
    pub proposal_id: u64,
    /// Address of the voter (may be a delegate).
    pub voter: Address,
    /// Address of the token holder whose tokens are being used.
    /// If the voter is voting on their own behalf, this equals `voter`.
    pub token_holder: Address,
    /// Number of tokens backing this vote.
    pub weight: i128,
    /// Vote direction.
    pub direction: VoteDirection,
    /// Ledger timestamp when the vote was cast.
    pub timestamp: u64,
    /// Whether this vote was cast via delegation.
    pub is_delegated: bool,
}

impl View for VoteRecord {
    type V = VoteRecord;

    open spec fn view(&self) -> VoteRecord {
        *self
    }
}

/// A delegation record: one address delegates its voting power to another.
#[derive(Clone, Copy, Debug, PartialEq, Eq, Structural)]
pub struct Delegation {
    /// The address delegating its voting power (the delegator).
    pub delegator: Address,
    /// The address receiving the delegated voting power (the delegate).
    pub delegate: Address,
    /// Ledger timestamp when the delegation was created.
    pub created_at: u64,
    /// Whether this delegation is currently active.
    pub active: bool,
}

impl View for Delegation {
    type V = Delegation;

    open spec fn view(&self) -> Delegation {
        *self
    }
}

/// A request to withdraw funds from the treasury.
#[derive(Clone, Debug, PartialEq, Eq)]
pub struct TreasuryRequest {
    /// Monotonically increasing request id.
    pub request_id: u64,
    /// Address of the recipient.
    pub recipient: Address,
    /// Amount to withdraw.
    pub amount: i128,
    /// Symbol of the asset to withdraw.
    pub asset: Symbol,
    /// Human-readable reason.
    pub reason: Symbol,
    /// Addresses that have approved this withdrawal.
    pub approvals: Vec<Address>,
    /// Whether the withdrawal has been executed.
    pub executed: bool,
    /// Ledger timestamp when the request was created.
    pub created_at: u64,
}

/// What a `TreasuryRequest` holds, with its lists as sequences.
#[verifier::ext_equal]
pub struct TreasuryRequestView {
    pub request_id: u64,
    pub recipient: Address,
    pub amount: i128,
    pub asset: Symbol,
    pub reason: Symbol,
    pub approvals: Seq<Address>,
    pub executed: bool,
    pub created_at: u64,
}

impl View for TreasuryRequest {
    type V = TreasuryRequestView;

    open spec fn view(&self) -> TreasuryRequestView {
        TreasuryRequestView {
            request_id: self.request_id,
            recipient: self.recipient,
            amount: self.amount,
            asset: self.asset,
            reason: self.reason,
            approvals: self.approvals@,
            executed: self.executed,
            created_at: self.created_at,
        }
    }
}

impl TreasuryRequest {
    /// An equal value of its own.
    pub fn copy(&self) -> (r: TreasuryRequest)
        ensures
            r@ == self@,
    {
        TreasuryRequest {
            request_id: self.request_id,
            recipient: self.recipient,
            amount: self.amount,
            asset: self.asset,
            reason: self.reason,
            approvals: copy_vec(&self.approvals),
            executed: self.executed,
            created_at: self.created_at,
        }
    }
}

/// An entry in the timelock queue.
#[derive(Clone, Copy, Debug, PartialEq, Eq, Structural)]
pub struct TimelockEntry {
    /// The proposal id this timelock is for.
    pub proposal_id: u64,
    /// When the timelock delay was set.
    pub scheduled_at: u64,
    /// When the timelock expires and execution becomes possible.
    pub execute_after: u64,
    /// Current status.
    pub status: TimelockStatus,
}

impl View for TimelockEntry {
    type V = TimelockEntry;

    open spec fn view(&self) -> TimelockEntry {
        *self
    }
}

/// Configuration parameters for the governance system.
#[derive(Clone, Copy, Debug, PartialEq, Eq, Structural)]
pub struct GovernanceConfig {
    /// Minimum tokens required to submit a proposal.
    pub proposal_threshold: i128,
    /// Duration of the voting period in seconds.
    pub voting_period: u64,
    /// Minimum fraction of total supply that must vote (in basis points, 0-10000).
    pub quorum_threshold_bps: u32,
    /// Minimum fraction of votes that must be "for" (in basis points, 0-10000).
    pub approval_threshold_bps: u32,
    /// Timelock delay in seconds after a proposal passes before execution.
    pub timelock_delay: u64,
    /// Minimum delay for emergency actions (shorter timelock).
    pub emergency_timelock_delay: u64,
    /// Basis points of treasury that can be withdrawn per request (cap).
    pub max_treasury_spend_bps: u32,
    /// Multi-sig threshold for treasury withdrawals.
    pub treasury_multisig_threshold: u32,
    /// Reward amount per governance participation (per vote or per proposal).
    pub reward_per_participation: i128,
    /// Maximum number of active proposals at any time.
    pub max_active_proposals: u32,
}

impl View for GovernanceConfig {
    type V = GovernanceConfig;

    open spec fn view(&self) -> GovernanceConfig {
        *self
    }
}

/// A snapshot of governance state for querying.
#[derive(Clone, Copy, Debug, PartialEq, Eq, Structural)]
pub struct GovernanceSummary {
    /// Total number of proposals ever created.
    pub total_proposals: u64,
    /// Number of proposals currently in Voting, Passed or Timelock status.
    pub active_proposals: u32,
    /// Total tokens currently deposited for voting power.
    pub total_voting_power: i128,
    /// Number of delegations currently active.
    pub active_delegations: u32,
    /// Current treasury balance.
    pub treasury_balance: i128,
    /// Whether the system is emergency-paused.
    pub emergency_paused: bool,
}

impl View for GovernanceSummary {
    type V = GovernanceSummary;

    open spec fn view(&self) -> GovernanceSummary {
        *self
    }
}

/// A single entry in the governance audit trail.
#[derive(Clone, Copy, Debug, PartialEq, Eq, Structural)]
pub struct GovernanceAuditEntry {
    /// Monotonically increasing sequence id.
    pub seq: u64,
    /// Ledger timestamp.
    pub timestamp: u64,
    /// What action was taken.
    pub action: Symbol,
    /// Proposal id this action pertains to (0 if not proposal-related).
    pub proposal_id: u64,
    /// Actor who performed the action.
    pub actor: Address,
    /// Additional detail (free-form).
    pub detail: Symbol,
}

impl View for GovernanceAuditEntry {
    type V = GovernanceAuditEntry;

    open spec fn view(&self) -> GovernanceAuditEntry {
        *self
    }
}

/// Errors returned by the governance contract.
#[derive(Clone, Copy, Debug, PartialEq, Eq, Structural)]
pub enum Error {
    /// Contract was not initialized.
    NotInitialized,
    /// Caller is not the admin.
    Unauthorized,
    /// Contract was already initialized.
    AlreadyInitialized,
    /// Insufficient token balance to submit a proposal.
    InsufficientVotingPower,
    /// Proposal not found.
    ProposalNotFound,
    /// Proposal is not in a votable state.
    NotVotable,
    /// Voter has already voted on this proposal.
    AlreadyVoted,
    /// Invalid vote direction.
    InvalidVoteDirection,
    /// Voting period has not ended yet.
    VotingNotEnded,
    /// Voting period has already ended.
    VotingAlreadyEnded,
    /// Proposal did not meet quorum.
    QuorumNotReached,
    /// Proposal did not meet approval threshold.
    ApprovalNotReached,
    /// Proposal is not in a state that can be timelocked.
    CannotTimelock,
    /// Timelock delay has not expired yet.
    TimelockNotExpired,
    /// Proposal is not in a state that can be executed.
    CannotExecute,
    /// Cannot cancel a proposal in its current state.
    CannotCancel,
    /// Delegation target not found.
    DelegationNotFound,
    /// Cannot delegate to yourself.
    CannotDelegateToSelf,
    /// No voting power deposited.
    NoVotingPower,
    /// Reward already claimed.
    RewardAlreadyClaimed,
    /// Invalid configuration parameters.
    InvalidConfig,
    /// Maximum active proposals reached.
    MaxProposalsReached,
    /// Caller is not the guardian.
    GuardianRequired,
    /// System is not paused (for unpause).
    NotPaused,
    /// System is already paused.
    AlreadyPaused,
}

impl Error {
    /// The number by which a caller outside knows the value.
    pub open spec fn spec_code(self) -> u32 {
        match self {
            Error::NotInitialized => 1,
            Error::Unauthorized => 2,
            Error::AlreadyInitialized => 3,
            Error::InsufficientVotingPower => 4,
            Error::ProposalNotFound => 5,
            Error::NotVotable => 6,
            Error::AlreadyVoted => 7,
            Error::InvalidVoteDirection => 8,
            Error::VotingNotEnded => 9,
            Error::VotingAlreadyEnded => 10,
            Error::QuorumNotReached => 11,
            Error::ApprovalNotReached => 12,
            Error::CannotTimelock => 13,
            Error::TimelockNotExpired => 14,
            Error::CannotExecute => 15,
            Error::CannotCancel => 16,
            Error::DelegationNotFound => 17,
            Error::CannotDelegateToSelf => 18,
            Error::NoVotingPower => 19,
            Error::RewardAlreadyClaimed => 20,
            Error::InvalidConfig => 21,
            Error::MaxProposalsReached => 22,
            Error::GuardianRequired => 23,
            Error::NotPaused => 24,
            Error::AlreadyPaused => 25,
        }
    }

    /// The number by which a caller outside knows the value.
    pub fn code(self) -> (n: u32)
        ensures
            n == self.spec_code(),
    {
        match self {
            Error::NotInitialized => 1,
            Error::Unauthorized => 2,
            Error::AlreadyInitialized => 3,
            Error::InsufficientVotingPower => 4,
            Error::ProposalNotFound => 5,
            Error::NotVotable => 6,
            Error::AlreadyVoted => 7,
            Error::InvalidVoteDirection => 8,
            Error::VotingNotEnded => 9,
            Error::VotingAlreadyEnded => 10,
            Error::QuorumNotReached => 11,
            Error::ApprovalNotReached => 12,
            Error::CannotTimelock => 13,
            Error::TimelockNotExpired => 14,
            Error::CannotExecute => 15,
            Error::CannotCancel => 16,
            Error::DelegationNotFound => 17,
            Error::CannotDelegateToSelf => 18,
            Error::NoVotingPower => 19,
            Error::RewardAlreadyClaimed => 20,
            Error::InvalidConfig => 21,
            Error::MaxProposalsReached => 22,
            Error::GuardianRequired => 23,
            Error::NotPaused => 24,
            Error::AlreadyPaused => 25,
        }
    }
}

/// Event emitted when a proposal is submitted.
#[derive(Clone, Copy, Debug, PartialEq, Eq, Structural)]
pub struct ProposalEvent {
    pub proposal_id: u64,
    pub proposer: Address,
    pub title: Symbol,
    pub action_type: ProposalActionType,
}

impl View for ProposalEvent {
    type V = ProposalEvent;

    open spec fn view(&self) -> ProposalEvent {
        *self
    }
}

/// Event emitted when a vote is cast.
#[derive(Clone, Copy, Debug, PartialEq, Eq, Structural)]
pub struct VoteEvent {
    pub proposal_id: u64,
    pub voter: Address,
    pub direction: VoteDirection,
    pub weight: i128,
}

impl View for VoteEvent {
    type V = VoteEvent;

    open spec fn view(&self) -> VoteEvent {
        *self
    }
}

/// Event emitted when a delegation is created or revoked.
#[derive(Clone, Copy, Debug, PartialEq, Eq, Structural)]
pub struct DelegationEvent {
    pub delegator: Address,
    pub delegate: Address,
    pub active: bool,
}

impl View for DelegationEvent {
    type V = DelegationEvent;

    open spec fn view(&self) -> DelegationEvent {
        *self
    }
}

/// Errors related to timelock operations.
#[derive(Clone, Copy, Debug, PartialEq, Eq, Structural)]
pub enum TimelockError {
    /// Timelock entry not found.
    EntryNotFound,
    /// Timelock delay has not yet expired.
    DelayNotExpired,
    /// Entry has already been executed.
    AlreadyExecuted,
    /// Entry was cancelled.
    AlreadyCancelled,
    /// Invalid timelock delay.
    InvalidDelay,
    /// Caller is not the admin.
    Unauthorized,
}

impl TimelockError {
    /// The number by which a caller outside knows the value.
    pub open spec fn spec_code(self) -> u32 {
        match self {
            TimelockError::EntryNotFound => 1,
            TimelockError::DelayNotExpired => 2,
            TimelockError::AlreadyExecuted => 3,
            TimelockError::AlreadyCancelled => 4,
            TimelockError::InvalidDelay => 5,
            TimelockError::Unauthorized => 6,
        }
    }

    /// The number by which a caller outside knows the value.
    pub fn code(self) -> (n: u32)
        ensures
            n == self.spec_code(),
    {
        match self {
            TimelockError::EntryNotFound => 1,
            TimelockError::DelayNotExpired => 2,
            TimelockError::AlreadyExecuted => 3,
            TimelockError::AlreadyCancelled => 4,
            TimelockError::InvalidDelay => 5,
            TimelockError::Unauthorized => 6,
        }
    }
}

/// Errors related to treasury operations.
#[derive(Clone, Copy, Debug, PartialEq, Eq, Structural)]
pub enum TreasuryError {
    /// Insufficient treasury balance.
    InsufficientBalance,
    /// Request not found.
    RequestNotFound,
    /// Request already executed.
    AlreadyExecuted,
    /// Caller is not a registered treasury signer.
    NotASigner,
    /// Caller has already approved this request.
    AlreadyApproved,
    /// Not enough approvals to execute.
    InsufficientApprovals,
    /// Amount exceeds the maximum allowed per-request spend.
    ExceedsSpendLimit,
    /// Invalid amount (must be positive).
    InvalidAmount,
    /// Request was cancelled.
    RequestCancelled,
    /// The system is emergency-paused.
    SystemPaused,
}

impl TreasuryError {
    /// The number by which a caller outside knows the value.
    pub open spec fn spec_code(self) -> u32 {
        match self {
            TreasuryError::InsufficientBalance => 1,
            TreasuryError::RequestNotFound => 2,
            TreasuryError::AlreadyExecuted => 3,
            TreasuryError::NotASigner => 4,
            TreasuryError::AlreadyApproved => 5,
            TreasuryError::InsufficientApprovals => 6,
            TreasuryError::ExceedsSpendLimit => 7,
            TreasuryError::InvalidAmount => 8,
            TreasuryError::RequestCancelled => 9,
            TreasuryError::SystemPaused => 10,
        }
    }

    /// The number by which a caller outside knows the value.
    pub fn code(self) -> (n: u32)
        ensures
            n == self.spec_code(),
    {
        match self {
            TreasuryError::InsufficientBalance => 1,
            TreasuryError::RequestNotFound => 2,
            TreasuryError::AlreadyExecuted => 3,
            TreasuryError::NotASigner => 4,
            TreasuryError::AlreadyApproved => 5,
            TreasuryError::InsufficientApprovals => 6,
            TreasuryError::ExceedsSpendLimit => 7,
            TreasuryError::InvalidAmount => 8,
            TreasuryError::RequestCancelled => 9,
            TreasuryError::SystemPaused => 10,
        }
    }
}

} // verus!
