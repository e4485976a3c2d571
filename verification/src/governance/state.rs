//! Storage, events and ledger data of the governance contract.

use vstd::prelude::*;

use crate::base::address::Address;
use crate::base::symbol::{sym, symbol_short, Symbol};
use crate::base::table::Table;
use crate::base::vecs::{has_address, push_capped, pushed_capped};
use crate::governance::records::{
    Delegation, DelegationEvent, GovernanceAuditEntry, GovernanceConfig, Proposal, ProposalEvent,
    TimelockEntry, TreasuryRequest, TreasuryRequestView, VoteEvent, VoteRecord,
};

verus! {

/// Default proposal threshold: 1000 tokens minimum to submit a proposal.
pub const DEFAULT_PROPOSAL_THRESHOLD: i128 = 1_000;

/// Default voting period: 7 days in seconds.
pub const DEFAULT_VOTING_PERIOD: u64 = 604_800;

/// Default quorum: 4% of total supply must vote (400 bps).
pub const DEFAULT_QUORUM_BPS: u32 = 400;

/// Default approval threshold: 50%+1 of votes must be "for" (5001 bps).
pub const DEFAULT_APPROVAL_BPS: u32 = 5_001;

/// Default timelock delay: 48 hours in seconds.
pub const DEFAULT_TIMELOCK_DELAY: u64 = 172_800;

/// Default emergency timelock delay: 1 hour in seconds.
pub const DEFAULT_EMERGENCY_TIMELOCK_DELAY: u64 = 3_600;

/// Default max treasury spend: 10% per request (1000 bps).
pub const DEFAULT_MAX_TREASURY_SPEND_BPS: u32 = 1_000;

/// Default treasury multi-sig threshold: 2.
pub const DEFAULT_TREASURY_MULTISIG_THRESHOLD: u32 = 2;

/// Default reward per participation: 10 tokens.
pub const DEFAULT_REWARD_PER_PARTICIPATION: i128 = 10;

/// Default max active proposals: 10.
pub const DEFAULT_MAX_ACTIVE_PROPOSALS: u32 = 10;

/// Maximum number of audit trail entries to retain.
pub const MAX_AUDIT_TRAIL: u32 = 5_000;

/// An event that the contract publishes.
#[derive(Clone, Copy, Debug, PartialEq, Eq, Structural)]
pub enum GovernanceEvent {
    /// `GOV_INIT`: the contract was initialized.
    Initialized { admin: Address, guardian: Address },
    /// `VP_DEP`: voting power was deposited.
    PowerDeposited { holder: Address, amount: i128, power: i128 },
    /// `VP_WTH`: voting power was withdrawn.
    PowerWithdrawn { holder: Address, amount: i128, power: i128 },
    /// `PROPOSAL`: a proposal was submitted.
    Proposed { proposal: ProposalEvent },
    /// `VOTE`: a vote was cast.
    Voted { vote: VoteEvent },
    /// `DEL_VOTE`: a delegate cast a vote.
    DelegateVoted { delegate: Address, vote: VoteEvent },
    /// `PASSED`: a proposal passed.
    Passed { proposal_id: u64, votes_for: i128, votes_against: i128, total_votes: i128 },
    /// `EXECUTED`: a proposal was executed.
    Executed { proposal_id: u64, executor: Address, at: u64 },
    /// `DELEGATE`: a delegation was created.
    Delegated { delegation: DelegationEvent },
    /// `DEL_REV`: a delegation was revoked.
    DelegationRevoked { delegation: DelegationEvent },
    /// `EM_PAUSE`: the system was paused.
    Paused { caller: Address },
    /// `EM_UNPSE`: the system was unpaused.
    Unpaused { admin: Address },
    /// `EM_EXEC`: a proposal was executed at once.
    EmergencyExecuted { caller: Address, proposal_id: u64, at: u64 },
    /// `REWARD`: a reward was claimed.
    RewardClaimed { voter: Address, proposal_id: u64, reward: i128 },
    /// `TL_SCHD`: a timelock was scheduled.
    TimelockScheduled { proposal_id: u64, delay_seconds: u64, execute_after: u64 },
    /// `TL_EXEC`: a timelock entry was executed.
    TimelockExecuted { proposal_id: u64 },
    /// `TL_CANCEL`: a timelock entry was cancelled.
    TimelockCancelled { proposal_id: u64 },
    /// `TREAS_DEP`: funds were deposited.
    TreasuryDeposited { depositor: Address, asset: Symbol, amount: i128 },
    /// `TREAS_REQ`: a withdrawal was requested.
    TreasuryRequested {
        requester: Address,
        asset: Symbol,
        request_id: u64,
        amount: i128,
        recipient: Address,
    },
    /// `TREAS_APR`: a request was approved.
    TreasuryApproved { signer: Address, request_id: u64, approvals: u32 },
    /// `TREAS_EXE`: a request was executed.
    TreasuryExecuted { recipient: Address, request_id: u64, amount: i128, asset: Symbol },
    /// `TREAS_CAN`: a request was cancelled.
    TreasuryCancelled { admin: Address, request_id: u64 },
}

/// The storage of the contract and the ledger around one call.
#[derive(Debug)]
pub struct GovernanceEnv {
    /// Ledger time in seconds.
    pub timestamp: u64,
    /// Addresses that authorised the call.
    pub auths: Vec<Address>,
    /// Events published so far, oldest first.
    pub events: Vec<GovernanceEvent>,
    /// Admin address set during `initialize`.
    pub admin: Option<Address>,
    /// Guardian address (can pause).
    pub guardian: Option<Address>,
    /// Current governance configuration.
    pub config: Option<GovernanceConfig>,
    /// Total token supply snapshot (used for quorum calculations).
    pub total_supply: i128,
    /// Proposals by ID.
    pub proposals: Table<u64, Proposal>,
    /// Next proposal ID to allocate.
    pub next_proposal_id: u64,
    /// All proposal IDs, oldest first.
    pub proposal_ids: Vec<u64>,
    /// Vote records by proposal and token holder.
    pub votes: Table<(u64, Address), VoteRecord>,
    /// Delegations by delegator.
    pub delegations: Table<Address, Delegation>,
    /// Delegators whose delegation is active.
    pub delegators: Vec<Address>,
    /// Deposited tokens by holder.
    pub voting_power: Table<Address, i128>,
    /// Total deposited voting power across all holders.
    pub total_voting_power: i128,
    /// Treasury balances by asset.
    pub treasury_balances: Table<Symbol, i128>,
    /// All assets held in treasury.
    pub treasury_assets: Vec<Symbol>,
    /// Treasury withdrawal requests by ID.
    pub treasury_requests: Table<u64, TreasuryRequest>,
    /// Next treasury request ID to allocate.
    pub next_request_id: u64,
    /// Treasury multi-sig signers.
    pub treasury_signers: Vec<Address>,
    /// Timelock entries by proposal.
    pub timelocks: Table<u64, TimelockEntry>,
    /// Audit trail entries, oldest first.
    pub audit_trail: Vec<GovernanceAuditEntry>,
    /// Next audit trail sequence ID.
    pub next_audit_seq: u64,
    /// Whether the system is emergency-paused.
    pub emergency_paused: bool,
    /// Whether an address claimed its reward for a proposal.
    pub rewards_claimed: Table<(u64, Address), bool>,
    /// Total rewards distributed.
    pub total_rewards: i128,
    /// Audit-log sink address.
    pub audit_sink: Option<Address>,
}

/// What a `GovernanceEnv` holds, with its tables as maps and its lists as sequences.
#[verifier::ext_equal]
pub struct GovernanceState {
    pub timestamp: u64,
    pub auths: Seq<Address>,
    pub events: Seq<GovernanceEvent>,
    pub admin: Option<Address>,
    pub guardian: Option<Address>,
    pub config: Option<GovernanceConfig>,
    pub total_supply: i128,
    pub proposals: Map<u64, Proposal>,
    pub next_proposal_id: u64,
    pub proposal_ids: Seq<u64>,
    pub votes: Map<(u64, Address), VoteRecord>,
    pub delegations: Map<Address, Delegation>,
    pub delegators: Seq<Address>,
    pub voting_power: Map<Address, i128>,
    pub total_voting_power: i128,
    pub treasury_balances: Map<Symbol, i128>,
    pub treasury_assets: Seq<Symbol>,
    pub treasury_requests: Map<u64, TreasuryRequestView>,
    pub next_request_id: u64,
    pub treasury_signers: Seq<Address>,
    pub timelocks: Map<u64, TimelockEntry>,
    pub audit_trail: Seq<GovernanceAuditEntry>,
    pub next_audit_seq: u64,
    pub emergency_paused: bool,
    pub rewards_claimed: Map<(u64, Address), bool>,
    pub total_rewards: i128,
    pub audit_sink: Option<Address>,
}

impl View for GovernanceEnv {
    type V = GovernanceState;

    open spec fn view(&self) -> GovernanceState {
        GovernanceState {
            timestamp: self.timestamp,
            auths: self.auths@,
            events: self.events@,
            admin: self.admin,
            guardian: self.guardian,
            config: self.config,
            total_supply: self.total_supply,
            proposals: self.proposals@,
            next_proposal_id: self.next_proposal_id,
            proposal_ids: self.proposal_ids@,
            votes: self.votes@,
            delegations: self.delegations@,
            delegators: self.delegators@,
            voting_power: self.voting_power@,
            total_voting_power: self.total_voting_power,
            treasury_balances: self.treasury_balances@,
            treasury_assets: self.treasury_assets@,
            treasury_requests: self.treasury_requests@,
            next_request_id: self.next_request_id,
            treasury_signers: self.treasury_signers@,
            timelocks: self.timelocks@,
            audit_trail: self.audit_trail@,
            next_audit_seq: self.next_audit_seq,
            emergency_paused: self.emergency_paused,
            rewards_claimed: self.rewards_claimed@,
            total_rewards: self.total_rewards,
            audit_sink: self.audit_sink,
        }
    }
}

/// The configuration of a contract that has none of its own.
pub open spec fn default_config() -> GovernanceConfig {
    GovernanceConfig {
        proposal_threshold: DEFAULT_PROPOSAL_THRESHOLD,
        voting_period: DEFAULT_VOTING_PERIOD,
        quorum_threshold_bps: DEFAULT_QUORUM_BPS,
        approval_threshold_bps: DEFAULT_APPROVAL_BPS,
        timelock_delay: DEFAULT_TIMELOCK_DELAY,
        emergency_timelock_delay: DEFAULT_EMERGENCY_TIMELOCK_DELAY,
        max_treasury_spend_bps: DEFAULT_MAX_TREASURY_SPEND_BPS,
        treasury_multisig_threshold: DEFAULT_TREASURY_MULTISIG_THRESHOLD,
        reward_per_participation: DEFAULT_REWARD_PER_PARTICIPATION,
        max_active_proposals: DEFAULT_MAX_ACTIVE_PROPOSALS,
    }
}

/// Builds the configuration of a contract that has none of its own.
pub fn make_default_config() -> (c: GovernanceConfig)
    ensures
        c == default_config(),
{
    GovernanceConfig {
        proposal_threshold: DEFAULT_PROPOSAL_THRESHOLD,
        voting_period: DEFAULT_VOTING_PERIOD,
        quorum_threshold_bps: DEFAULT_QUORUM_BPS,
        approval_threshold_bps: DEFAULT_APPROVAL_BPS,
        timelock_delay: DEFAULT_TIMELOCK_DELAY,
        emergency_timelock_delay: DEFAULT_EMERGENCY_TIMELOCK_DELAY,
        max_treasury_spend_bps: DEFAULT_MAX_TREASURY_SPEND_BPS,
        treasury_multisig_threshold: DEFAULT_TREASURY_MULTISIG_THRESHOLD,
        reward_per_participation: DEFAULT_REWARD_PER_PARTICIPATION,
        max_active_proposals: DEFAULT_MAX_ACTIVE_PROPOSALS,
    }
}

impl GovernanceState {
    /// The state of a contract that was never called.
    pub open spec fn fresh(timestamp: u64) -> GovernanceState {
        GovernanceState {
            timestamp,
            auths: Seq::empty(),
            events: Seq::empty(),
            admin: None,
            guardian: None,
            config: None,
            total_supply: 0,
            proposals: Map::empty(),
            next_proposal_id: 1,
            proposal_ids: Seq::empty(),
            votes: Map::empty(),
            delegations: Map::empty(),
            delegators: Seq::empty(),
            voting_power: Map::empty(),
            total_voting_power: 0,
            treasury_balances: Map::empty(),
            treasury_assets: Seq::empty(),
            treasury_requests: Map::empty(),
            next_request_id: 1,
            treasury_signers: Seq::empty(),
            timelocks: Map::empty(),
            audit_trail: Seq::empty(),
            next_audit_seq: 1,
            emergency_paused: false,
            rewards_claimed: Map::empty(),
            total_rewards: 0,
            audit_sink: None,
        }
    }

    /// Every request stands under its own ID and asks for a positive amount.
    pub open spec fn wf(self) -> bool {
        forall|id: u64| #[trigger]
            self.treasury_requests.contains_key(id) ==> self.treasury_requests[id].request_id == id
                && self.treasury_requests[id].amount > 0
                && self.treasury_requests[id].approvals.no_duplicates()
    }

    /// The address authorised the call.
    pub open spec fn authorized(self, a: Address) -> bool {
        self.auths.contains(a)
    }

    /// The address is the administrator.
    pub open spec fn is_admin(self, a: Address) -> bool {
        self.admin == Some(a)
    }

    /// The configuration in force.
    pub open spec fn conf(self) -> GovernanceConfig {
        match self.config {
            Some(c) => c,
            None => default_config(),
        }
    }

    /// The state with one more event.
    pub open spec fn emit(self, e: GovernanceEvent) -> GovernanceState {
        GovernanceState { events: self.events.push(e), ..self }
    }

    /// The state with one more entry in the audit trail, which keeps the
    /// newest entries up to its limit.
    pub open spec fn noted(
        self,
        action: Symbol,
        proposal_id: u64,
        actor: Address,
        detail: Symbol,
    ) -> GovernanceState {
        let entry = GovernanceAuditEntry {
            seq: self.next_audit_seq,
            timestamp: self.timestamp,
            action,
            proposal_id,
            actor,
            detail,
        };
        GovernanceState {
            audit_trail: pushed_capped(self.audit_trail, entry, MAX_AUDIT_TRAIL as nat),
            next_audit_seq: (self.next_audit_seq + 1) as u64,
            ..self
        }
    }
}

impl GovernanceEnv {
    /// The storage of a contract that was never called.
    pub fn new(timestamp: u64) -> (env: GovernanceEnv)
        ensures
            env@ == GovernanceState::fresh(timestamp),
            env@.wf(),
    {
        let env = GovernanceEnv {
            timestamp,
            auths: Vec::new(),
            events: Vec::new(),
            admin: None,
            guardian: None,
            config: None,
            total_supply: 0,
            proposals: Table::new(),
            next_proposal_id: 1,
            proposal_ids: Vec::new(),
            votes: Table::new(),
            delegations: Table::new(),
            delegators: Vec::new(),
            voting_power: Table::new(),
            total_voting_power: 0,
            treasury_balances: Table::new(),
            treasury_assets: Vec::new(),
            treasury_requests: Table::new(),
            next_request_id: 1,
            treasury_signers: Vec::new(),
            timelocks: Table::new(),
            audit_trail: Vec::new(),
            next_audit_seq: 1,
            emergency_paused: false,
            rewards_claimed: Table::new(),
            total_rewards: 0,
            audit_sink: None,
        };
        assert(env@ =~= GovernanceState::fresh(timestamp));
        env
    }

    /// Whether the address authorised the call.
    pub fn is_authorized(&self, a: Address) -> (b: bool)
        ensures
            b == self@.authorized(a),
    {
        has_address(&self.auths, a)
    }

    /// The configuration in force.
    pub(crate) fn conf(&self) -> (c: GovernanceConfig)
        ensures
            c == self@.conf(),
    {
        match self.config {
            Some(c) => c,
            None => make_default_config(),
        }
    }

    /// Publishes an event.
    pub(crate) fn publish(&mut self, e: GovernanceEvent)
        ensures
            final(self)@ == old(self)@.emit(e),
    {
        self.events.push(e);
        assert(self@ =~= old(self)@.emit(e));
    }

    /// Append an entry to the governance audit trail.
    pub(crate) fn append_audit(
        &mut self,
        action: &str,
        proposal_id: u64,
        actor: Address,
        detail: Symbol,
    )
        requires
            old(self)@.next_audit_seq < u64::MAX,
        ensures
            final(self)@ == old(self)@.noted(
                sym(action@),
                proposal_id,
                actor,
                detail,
            ),
    {
        let seq: u64 = self.next_audit_seq;
        let entry = GovernanceAuditEntry {
            seq,
            timestamp: self.timestamp,
            action: symbol_short(action),
            proposal_id,
            actor,
            detail,
        };
        push_capped(&mut self.audit_trail, entry, MAX_AUDIT_TRAIL as usize);
        self.next_audit_seq = seq + 1;
        assert(self@ =~= old(self)@.noted(
            sym(action@),
            proposal_id,
            actor,
            detail,
        ));
    }
}

} // verus!
