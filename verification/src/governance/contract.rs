//! The governance contract.

use vstd::prelude::*;

use crate::audit::contract::EventData;
use crate::audit::logger::{AuditCall, AuditCallView};
use crate::audit::permissions;
use crate::audit::records::{AuditEventType, FieldEntry, StateSnapshot};
use crate::base::address::Address;
use crate::base::arith::{
    ceil_quot, checked_mul_div, fits, lemma_below_ceil, lemma_quot_bounds, quot,
};
use crate::base::effect::effect;
use crate::base::symbol::{sym, symbol_short, Symbol};
use crate::base::table::value_or;
use crate::base::vecs::{copy_vec, has_address};
use crate::governance::records::{
    Delegation, DelegationEvent, Error, GovernanceAuditEntry, GovernanceConfig, GovernanceSummary,
    Proposal, ProposalActionType, ProposalEvent, ProposalStatus, TreasuryError, TreasuryRequest,
    VoteDirection, VoteEvent, VoteRecord,
};
use crate::governance::state::{
    default_config, make_default_config, GovernanceEnv, GovernanceEvent, GovernanceState,
};
use crate::governance::timelock;
use crate::governance::treasury;
use crate::governance::treasury::{with_member, without_member};

verus! {

/// Governance DAO contract for AstraPort.
///
/// Enables token-weighted voting, proposal management, treasury control,
/// timelock execution, and emergency pause capabilities.
pub struct GovernanceDAO;

// ---------------------------------------------------------------------------
// What the calls do
// ---------------------------------------------------------------------------

/// What initializing does: roles, configuration and switches are set. What
/// holders deposited and delegated before, and the numbers given out, stay.
pub open spec fn initialized(s: GovernanceState, admin: Address, guardian: Address) -> Result<
    (GovernanceState, Symbol),
    Error,
> {
    if s.admin is Some {
        Err(Error::AlreadyInitialized)
    } else {
        Ok(
            (
                GovernanceState {
                    admin: Some(admin),
                    guardian: Some(guardian),
                    config: Some(default_config()),
                    total_supply: 0,
                    emergency_paused: false,
                    ..s
                }.emit(GovernanceEvent::Initialized { admin, guardian }),
                sym("ok"@),
            ),
        )
    }
}

/// The error of a caller who is not the administrator.
pub open spec fn admin_error(s: GovernanceState, caller: Address) -> Option<Error> {
    match s.admin {
        None => Some(Error::NotInitialized),
        Some(a) => if a == caller {
            None
        } else {
            Some(Error::Unauthorized)
        },
    }
}

/// A configuration that can be put in force.
pub open spec fn valid_config(c: GovernanceConfig) -> bool {
    &&& c.voting_period != 0
    &&& 0 < c.quorum_threshold_bps <= 10_000
    &&& 0 < c.approval_threshold_bps <= 10_000
    &&& c.treasury_multisig_threshold != 0
    &&& c.max_active_proposals != 0
}

/// What setting the configuration does.
pub open spec fn config_set(s: GovernanceState, admin: Address, c: GovernanceConfig) -> Result<
    (GovernanceState, Symbol),
    Error,
> {
    match admin_error(s, admin) {
        Some(e) => Err(e),
        None => if !valid_config(c) {
            Err(Error::InvalidConfig)
        } else {
            Ok(
                (
                    GovernanceState { config: Some(c), ..s }.noted(
                        sym("set_cfg"@),
                        0,
                        admin,
                        sym("config"@),
                    ),
                    sym("ok"@),
                ),
            )
        },
    }
}

/// What setting the supply snapshot does.
pub open spec fn supply_set(s: GovernanceState, admin: Address, total_supply: i128) -> Result<
    (GovernanceState, Symbol),
    Error,
> {
    match admin_error(s, admin) {
        Some(e) => Err(e),
        None => Ok((GovernanceState { total_supply, ..s }, sym("ok"@))),
    }
}

/// The voting power of a holder.
pub open spec fn power_of(s: GovernanceState, holder: Address) -> i128 {
    value_or(s.voting_power, holder, 0)
}

/// What depositing voting power does.
pub open spec fn power_deposited(s: GovernanceState, holder: Address, amount: i128) -> Result<
    (GovernanceState, i128),
    Error,
> {
    let power = power_of(s, holder) + amount;
    let total = s.total_voting_power + amount;
    if amount <= 0 || !fits(power) || !fits(total) {
        Err(Error::InvalidConfig)
    } else {
        Ok(
            (
                GovernanceState {
                    voting_power: s.voting_power.insert(holder, power as i128),
                    total_voting_power: total as i128,
                    ..s
                }.emit(
                    GovernanceEvent::PowerDeposited { holder, amount, power: power as i128 },
                ),
                power as i128,
            ),
        )
    }
}

/// What withdrawing voting power does.
pub open spec fn power_withdrawn(s: GovernanceState, holder: Address, amount: i128) -> Result<
    (GovernanceState, i128),
    Error,
> {
    let power = power_of(s, holder) - amount;
    let total = s.total_voting_power - amount;
    if amount <= 0 {
        Err(Error::InvalidConfig)
    } else if power < 0 {
        Err(Error::NoVotingPower)
    } else if !fits(total) {
        Err(Error::InvalidConfig)
    } else {
        Ok(
            (
                GovernanceState {
                    voting_power: if power == 0 {
                        s.voting_power.remove(holder)
                    } else {
                        s.voting_power.insert(holder, power as i128)
                    },
                    total_voting_power: total as i128,
                    ..s
                }.emit(
                    GovernanceEvent::PowerWithdrawn { holder, amount, power: power as i128 },
                ),
                power as i128,
            ),
        )
    }
}

/// The proposal still counts toward the limit of active proposals.
pub open spec fn is_active(s: GovernanceState, id: u64) -> bool {
    s.proposals.contains_key(id) && (s.proposals[id].status == ProposalStatus::Voting
        || s.proposals[id].status == ProposalStatus::Timelock || s.proposals[id].status
        == ProposalStatus::Passed)
}

/// Number of active proposals among the first `n`.
pub open spec fn active_count(s: GovernanceState, ids: Seq<u64>, n: int) -> nat
    decreases n,
{
    if n <= 0 {
        0
    } else {
        active_count(s, ids, n - 1) + if is_active(s, ids[n - 1]) {
            1nat
        } else {
            0nat
        }
    }
}

/// What submitting a proposal does.
pub open spec fn proposed(
    s: GovernanceState,
    proposer: Address,
    title: Symbol,
    description: Symbol,
    action_type: ProposalActionType,
    action_payload: Symbol,
) -> Result<(GovernanceState, u64), Error> {
    if s.emergency_paused {
        Err(Error::AlreadyPaused)
    } else if power_of(s, proposer) < s.conf().proposal_threshold {
        Err(Error::InsufficientVotingPower)
    } else if active_count(s, s.proposal_ids, s.proposal_ids.len() as int)
        >= s.conf().max_active_proposals {
        Err(Error::MaxProposalsReached)
    } else {
        let id = s.next_proposal_id;
        let p = Proposal {
            proposal_id: id,
            proposer,
            title,
            description,
            action_type,
            action_payload,
            status: ProposalStatus::Voting,
            votes_for: 0,
            votes_against: 0,
            votes_abstain: 0,
            voter_count: 0,
            created_at: s.timestamp,
            voting_starts: s.timestamp,
            voting_ends: (s.timestamp + s.conf().voting_period) as u64,
            timelock_expiry: 0,
            executed_at: 0,
        };
        Ok(
            (
                GovernanceState {
                    proposals: s.proposals.insert(id, p),
                    next_proposal_id: (id + 1) as u64,
                    proposal_ids: s.proposal_ids.push(id),
                    ..s
                }.noted(sym("submit"@), id, proposer, title).emit(
                    GovernanceEvent::Proposed {
                        proposal: ProposalEvent { proposal_id: id, proposer, title, action_type },
                    },
                ),
                id,
            ),
        )
    }
}

/// The state with a proposal put back.
pub open spec fn with_proposal(s: GovernanceState, id: u64, p: Proposal) -> GovernanceState {
    GovernanceState { proposals: s.proposals.insert(id, p), ..s }
}

/// What cancelling a proposal does.
pub open spec fn proposal_cancelled(s: GovernanceState, caller: Address, id: u64) -> Result<
    (GovernanceState, Symbol),
    Error,
> {
    if !s.proposals.contains_key(id) {
        Err(Error::ProposalNotFound)
    } else if s.admin is None {
        Err(Error::NotInitialized)
    } else if caller != s.proposals[id].proposer && !s.is_admin(caller) {
        Err(Error::CannotCancel)
    } else if s.proposals[id].status != ProposalStatus::Submitted && s.proposals[id].status
        != ProposalStatus::Voting {
        Err(Error::CannotCancel)
    } else {
        Ok(
            (
                with_proposal(
                    s,
                    id,
                    Proposal { status: ProposalStatus::Cancelled, ..s.proposals[id] },
                ).noted(sym("cancel"@), id, caller, sym("cancelled"@)),
                sym("ok"@),
            ),
        )
    }
}

/// A proposal with one more vote counted.
pub open spec fn tallied(p: Proposal, direction: VoteDirection, weight: i128) -> Proposal {
    let counted = Proposal { voter_count: (p.voter_count + 1) as u32, ..p };
    match direction {
        VoteDirection::For => Proposal { votes_for: (p.votes_for + weight) as i128, ..counted },
        VoteDirection::Against => Proposal {
            votes_against: (p.votes_against + weight) as i128,
            ..counted
        },
        VoteDirection::Abstain => Proposal {
            votes_abstain: (p.votes_abstain + weight) as i128,
            ..counted
        },
    }
}

/// There is room in the tallies of a proposal for a holder's vote.
pub open spec fn tally_room(
    s: GovernanceState,
    id: u64,
    direction: VoteDirection,
    holder: Address,
) -> bool {
    s.proposals.contains_key(id) ==> {
        let p = s.proposals[id];
        &&& p.voter_count < u32::MAX
        &&& match direction {
            VoteDirection::For => fits(p.votes_for + power_of(s, holder)),
            VoteDirection::Against => fits(p.votes_against + power_of(s, holder)),
            VoteDirection::Abstain => fits(p.votes_abstain + power_of(s, holder)),
        }
    }
}

/// The error of a vote that cannot be counted.
pub open spec fn vote_error(s: GovernanceState, id: u64, holder: Address) -> Option<Error> {
    if !s.proposals.contains_key(id) {
        Some(Error::ProposalNotFound)
    } else if s.proposals[id].status != ProposalStatus::Voting {
        Some(Error::NotVotable)
    } else if s.timestamp > s.proposals[id].voting_ends {
        Some(Error::VotingAlreadyEnded)
    } else if s.votes.contains_key((id, holder)) {
        Some(Error::AlreadyVoted)
    } else if power_of(s, holder) <= 0 {
        Some(Error::NoVotingPower)
    } else {
        None
    }
}

/// The state with a vote recorded and counted; it weighs the holder's voting power.
pub open spec fn vote_counted(
    s: GovernanceState,
    voter: Address,
    holder: Address,
    id: u64,
    direction: VoteDirection,
    is_delegated: bool,
) -> GovernanceState {
    let weight = power_of(s, holder);
    GovernanceState {
        votes: s.votes.insert(
            (id, holder),
            VoteRecord {
                proposal_id: id,
                voter,
                token_holder: holder,
                weight,
                direction,
                timestamp: s.timestamp,
                is_delegated,
            },
        ),
        proposals: s.proposals.insert(id, tallied(s.proposals[id], direction, weight)),
        ..s
    }
}

/// What casting a vote does.
pub open spec fn voted(s: GovernanceState, voter: Address, id: u64, direction: VoteDirection) -> Result<
    (GovernanceState, Symbol),
    Error,
> {
    if s.emergency_paused {
        Err(Error::AlreadyPaused)
    } else {
        match vote_error(s, id, voter) {
            Some(e) => Err(e),
            None => Ok(
                (
                    vote_counted(s, voter, voter, id, direction, false).noted(
                        sym("vote"@),
                        id,
                        voter,
                        sym("cast"@),
                    ).emit(
                        GovernanceEvent::Voted {
                            vote: VoteEvent {
                                proposal_id: id,
                                voter,
                                direction,
                                weight: power_of(s, voter),
                            },
                        },
                    ),
                    sym("ok"@),
                ),
            ),
        }
    }
}

/// The holder has delegated to the delegate.
pub open spec fn delegates_to(s: GovernanceState, holder: Address, delegate: Address) -> bool {
    s.delegations.contains_key(holder) && s.delegations[holder].active
        && s.delegations[holder].delegate == delegate
}

/// What casting a vote for a delegator does.
pub open spec fn delegate_voted(
    s: GovernanceState,
    delegate: Address,
    holder: Address,
    id: u64,
    direction: VoteDirection,
) -> Result<(GovernanceState, Symbol), Error> {
    if s.emergency_paused {
        Err(Error::AlreadyPaused)
    } else if !delegates_to(s, holder, delegate) {
        Err(Error::DelegationNotFound)
    } else {
        match vote_error(s, id, holder) {
            Some(e) => Err(e),
            None => Ok(
                (
                    vote_counted(s, delegate, holder, id, direction, true).noted(
                        sym("del_vote"@),
                        id,
                        delegate,
                        sym("del_vote"@),
                    ).emit(
                        GovernanceEvent::DelegateVoted {
                            delegate,
                            vote: VoteEvent {
                                proposal_id: id,
                                voter: holder,
                                direction,
                                weight: power_of(s, holder),
                            },
                        },
                    ),
                    sym("ok"@),
                ),
            ),
        }
    }
}

/// All votes of a proposal.
pub open spec fn total_votes(p: Proposal) -> int {
    p.votes_for + p.votes_against + p.votes_abstain
}

/// The votes that a proposal needs: a fraction of the total supply.
pub open spec fn quorum_of(s: GovernanceState) -> int {
    quot(s.total_supply * s.conf().quorum_threshold_bps, 10_000)
}

/// Of the votes for and against, at least the fraction that the threshold
/// asks for is in favor.
pub open spec fn is_approved(s: GovernanceState, p: Proposal) -> bool {
    p.votes_for * 10_000 >= (p.votes_for + p.votes_against) * s.conf().approval_threshold_bps
}

/// The sums of a proposal's tallies are `i128`.
pub open spec fn votes_fit(s: GovernanceState, id: u64) -> bool {
    s.proposals.contains_key(id) ==> fits(
        s.proposals[id].votes_for + s.proposals[id].votes_against,
    ) && fits(total_votes(s.proposals[id]))
}

/// What finalizing a proposal does.
pub open spec fn finalized(s: GovernanceState, id: u64) -> Result<
    (GovernanceState, ProposalStatus),
    Error,
> {
    if !s.proposals.contains_key(id) {
        Err(Error::ProposalNotFound)
    } else {
        let p = s.proposals[id];
        let net = p.votes_for + p.votes_against;
        let defeated = with_proposal(s, id, Proposal { status: ProposalStatus::Defeated, ..p });
        if p.status != ProposalStatus::Voting {
            Err(Error::VotingAlreadyEnded)
        } else if s.timestamp <= p.voting_ends {
            Err(Error::VotingNotEnded)
        } else if !fits(s.total_supply * s.conf().quorum_threshold_bps) {
            Err(Error::InvalidConfig)
        } else if total_votes(p) < quorum_of(s) {
            Ok(
                (
                    defeated.noted(sym("defeat"@), id, p.proposer, sym("quorum"@)),
                    ProposalStatus::Defeated,
                ),
            )
        } else if net == 0 {
            Ok((defeated, ProposalStatus::Defeated))
        } else if !fits(net * s.conf().approval_threshold_bps) {
            Err(Error::InvalidConfig)
        } else if !is_approved(s, p) {
            Ok(
                (
                    defeated.noted(sym("defeat"@), id, p.proposer, sym("approval"@)),
                    ProposalStatus::Defeated,
                ),
            )
        } else {
            Ok(
                (
                    with_proposal(s, id, Proposal { status: ProposalStatus::Passed, ..p }).noted(
                        sym("pass"@),
                        id,
                        p.proposer,
                        sym("passed"@),
                    ).emit(
                        GovernanceEvent::Passed {
                            proposal_id: id,
                            votes_for: p.votes_for,
                            votes_against: p.votes_against,
                            total_votes: total_votes(p) as i128,
                        },
                    ),
                    ProposalStatus::Passed,
                ),
            )
        }
    }
}

/// The delay of a proposal's timelock.
pub open spec fn proposal_delay(s: GovernanceState, p: Proposal) -> u64 {
    timelock::delay_of(p.action_type == ProposalActionType::EmergencyAction, s.conf())
}

/// What queueing a passed proposal does.
pub open spec fn queued(s: GovernanceState, id: u64) -> Result<(GovernanceState, Symbol), Error> {
    if !s.proposals.contains_key(id) {
        Err(Error::ProposalNotFound)
    } else if s.proposals[id].status != ProposalStatus::Passed {
        Err(Error::CannotTimelock)
    } else {
        let p = s.proposals[id];
        match timelock::scheduled(s, id, proposal_delay(s, p)) {
            Err(_) => Err(Error::CannotTimelock),
            Ok((t, entry)) => Ok(
                (
                    with_proposal(
                        t,
                        id,
                        Proposal {
                            status: ProposalStatus::Timelock,
                            timelock_expiry: entry.execute_after,
                            ..p
                        },
                    ).noted(sym("tl_queue"@), id, p.proposer, sym("queued"@)),
                    sym("ok"@),
                ),
            ),
        }
    }
}

/// What executing a queued proposal does.
pub open spec fn executed(s: GovernanceState, id: u64, executor: Address) -> Result<
    (GovernanceState, Symbol),
    Error,
> {
    if !s.proposals.contains_key(id) {
        Err(Error::ProposalNotFound)
    } else if s.proposals[id].status != ProposalStatus::Timelock {
        Err(Error::CannotExecute)
    } else {
        match timelock::checked(s, id) {
            Err(_) => Err(Error::TimelockNotExpired),
            Ok((t, _)) => match timelock::executed(t, id) {
                Err(_) => Err(Error::CannotExecute),
                Ok((u, _)) => Ok(
                    (
                        with_proposal(
                            u,
                            id,
                            Proposal {
                                status: ProposalStatus::Executed,
                                executed_at: s.timestamp,
                                ..s.proposals[id]
                            },
                        ).noted(sym("execute"@), id, executor, sym("executed"@)).emit(
                            GovernanceEvent::Executed {
                                proposal_id: id,
                                executor,
                                at: s.timestamp,
                            },
                        ),
                        sym("ok"@),
                    ),
                ),
            },
        }
    }
}

/// What delegating does.
pub open spec fn delegated(s: GovernanceState, delegator: Address, delegate: Address) -> Result<
    (GovernanceState, Symbol),
    Error,
> {
    if delegator == delegate {
        Err(Error::CannotDelegateToSelf)
    } else {
        Ok(
            (
                GovernanceState {
                    delegations: s.delegations.insert(
                        delegator,
                        Delegation { delegator, delegate, created_at: s.timestamp, active: true },
                    ),
                    delegators: with_member(s.delegators, delegator),
                    ..s
                }.noted(sym("delegate"@), 0, delegator, sym("delegate"@)).emit(
                    GovernanceEvent::Delegated {
                        delegation: DelegationEvent { delegator, delegate, active: true },
                    },
                ),
                sym("ok"@),
            ),
        )
    }
}

/// What revoking a delegation does.
pub open spec fn revoked(s: GovernanceState, delegator: Address) -> Result<
    (GovernanceState, Symbol),
    Error,
> {
    if !s.delegations.contains_key(delegator) {
        Err(Error::DelegationNotFound)
    } else {
        let d = s.delegations[delegator];
        Ok(
            (
                GovernanceState {
                    delegations: s.delegations.insert(delegator, Delegation { active: false, ..d }),
                    delegators: without_member(s.delegators, delegator),
                    ..s
                }.noted(sym("rvk_del"@), 0, delegator, sym("rvk_del"@)).emit(
                    GovernanceEvent::DelegationRevoked {
                        delegation: DelegationEvent { delegator, delegate: d.delegate, active: false },
                    },
                ),
                sym("ok"@),
            ),
        )
    }
}

/// What executing a treasury request does: nothing leaves a paused system.
pub open spec fn treasury_executed(s: GovernanceState, id: u64) -> Result<
    (GovernanceState, i128),
    TreasuryError,
> {
    if s.emergency_paused {
        Err(TreasuryError::SystemPaused)
    } else {
        treasury::withdrawn(s, id, s.conf())
    }
}

/// What pausing does.
pub open spec fn paused(s: GovernanceState, caller: Address) -> Result<
    (GovernanceState, Symbol),
    Error,
> {
    if s.admin is None || s.guardian is None {
        Err(Error::NotInitialized)
    } else if !s.is_admin(caller) && s.guardian != Some(caller) {
        Err(Error::GuardianRequired)
    } else if s.emergency_paused {
        Err(Error::AlreadyPaused)
    } else {
        Ok(
            (
                GovernanceState { emergency_paused: true, ..s }.noted(
                    sym("em_pause"@),
                    0,
                    caller,
                    sym("paused"@),
                ).emit(GovernanceEvent::Paused { caller }),
                sym("ok"@),
            ),
        )
    }
}

/// What unpausing does.
pub open spec fn unpaused(s: GovernanceState, admin: Address) -> Result<
    (GovernanceState, Symbol),
    Error,
> {
    match admin_error(s, admin) {
        Some(e) => Err(e),
        None => if !s.emergency_paused {
            Err(Error::NotPaused)
        } else {
            Ok(
                (
                    GovernanceState { emergency_paused: false, ..s }.noted(
                        sym("em_unpse"@),
                        0,
                        admin,
                        sym("unpaused"@),
                    ).emit(GovernanceEvent::Unpaused { admin }),
                    sym("ok"@),
                ),
            )
        },
    }
}

/// What executing a proposal at once does.
pub open spec fn emergency_executed(s: GovernanceState, caller: Address, id: u64) -> Result<
    (GovernanceState, Symbol),
    Error,
> {
    if s.admin is None || s.guardian is None {
        Err(Error::NotInitialized)
    } else if !s.is_admin(caller) && s.guardian != Some(caller) {
        Err(Error::GuardianRequired)
    } else if !s.proposals.contains_key(id) {
        Err(Error::ProposalNotFound)
    } else if s.proposals[id].status == ProposalStatus::Executed || s.proposals[id].status
        == ProposalStatus::Cancelled || s.proposals[id].status == ProposalStatus::ExecutionFailed {
        Err(Error::CannotExecute)
    } else {
        Ok(
            (
                with_proposal(
                    s,
                    id,
                    Proposal {
                        status: ProposalStatus::Executed,
                        executed_at: s.timestamp,
                        ..s.proposals[id]
                    },
                ).noted(sym("em_exec"@), id, caller, sym("emergency"@)).emit(
                    GovernanceEvent::EmergencyExecuted {
                        caller,
                        proposal_id: id,
                        at: s.timestamp,
                    },
                ),
                sym("ok"@),
            ),
        )
    }
}

/// Both the administrator and the guardian authorised an emergency execution.
pub open spec fn dual_signed(s: GovernanceState, caller: Address) -> bool {
    &&& s.authorized(caller)
    &&& s.is_admin(caller) && s.guardian is Some ==> s.authorized(s.guardian.unwrap())
    &&& !s.is_admin(caller) && s.guardian == Some(caller) && s.admin is Some ==> s.authorized(
        s.admin.unwrap(),
    )
}

/// What claiming a reward does.
pub open spec fn reward_claimed(s: GovernanceState, voter: Address, id: u64) -> Result<
    (GovernanceState, i128),
    Error,
> {
    if value_or(s.rewards_claimed, (id, voter), false) {
        Err(Error::RewardAlreadyClaimed)
    } else if !s.votes.contains_key((id, voter)) {
        Err(Error::NoVotingPower)
    } else {
        let reward = s.conf().reward_per_participation;
        Ok(
            (
                GovernanceState {
                    rewards_claimed: s.rewards_claimed.insert((id, voter), true),
                    total_rewards: (s.total_rewards + reward) as i128,
                    ..s
                }.noted(sym("reward"@), id, voter, sym("claimed"@)).emit(
                    GovernanceEvent::RewardClaimed { voter, proposal_id: id, reward },
                ),
                reward,
            ),
        )
    }
}

/// What setting the audit sink does.
pub open spec fn sink_set(s: GovernanceState, admin: Address, sink: Address) -> Result<
    (GovernanceState, Symbol),
    Error,
> {
    match admin_error(s, admin) {
        Some(e) => Err(e),
        None => Ok((GovernanceState { audit_sink: Some(sink), ..s }, sym("ok"@))),
    }
}

/// Number of active delegations among the first `n` delegators.
pub open spec fn delegation_count(s: GovernanceState, who: Seq<Address>, n: int) -> nat
    decreases n,
{
    if n <= 0 {
        0
    } else {
        delegation_count(s, who, n - 1) + if s.delegations.contains_key(who[n - 1])
            && s.delegations[who[n - 1]].active {
            1nat
        } else {
            0nat
        }
    }
}

/// The treasury balances of the first `n` assets together.
pub open spec fn treasury_total(s: GovernanceState, assets: Seq<Symbol>, n: int) -> int
    decreases n,
{
    if n <= 0 {
        0
    } else {
        treasury_total(s, assets, n - 1) + value_or(s.treasury_balances, assets[n - 1], 0)
    }
}

/// The running sums of the treasury balances all are `i128`.
pub open spec fn treasury_fits(s: GovernanceState) -> bool {
    forall|n: int|
        0 <= n <= s.treasury_assets.len() ==> fits(
            #[trigger] treasury_total(s, s.treasury_assets, n),
        )
}

/// The snapshot of a state.
pub open spec fn summary_of(s: GovernanceState) -> GovernanceSummary {
    GovernanceSummary {
        total_proposals: s.proposal_ids.len() as u64,
        active_proposals: active_count(s, s.proposal_ids, s.proposal_ids.len() as int) as u32,
        total_voting_power: s.total_voting_power,
        active_delegations: delegation_count(s, s.delegators, s.delegators.len() as int) as u32,
        treasury_balance: treasury_total(
            s,
            s.treasury_assets,
            s.treasury_assets.len() as int,
        ) as i128,
        emergency_paused: s.emergency_paused,
    }
}

/// The entries among the first `n` that belong to a proposal.
pub open spec fn trail_of(trail: Seq<GovernanceAuditEntry>, id: u64, n: int) -> Seq<
    GovernanceAuditEntry,
>
    decreases n,
{
    if n <= 0 {
        Seq::empty()
    } else if trail[n - 1].proposal_id == id {
        trail_of(trail, id, n - 1).push(trail[n - 1])
    } else {
        trail_of(trail, id, n - 1)
    }
}

/// What the audit-log sink is told of an administrative event on a proposal.
pub open spec fn audit_call(
    sink: Address,
    actor: Address,
    proposal_id: u64,
    outcome: Symbol,
    detail: Seq<char>,
) -> AuditCallView {
    let snapshot = seq![FieldEntry { key: sym("prpid"@), value: proposal_id as i128 }];
    AuditCallView {
        sink,
        data: EventData {
            actor,
            event_type: AuditEventType::AdminAction,
            portfolio: sym("gov"@),
            permissions: permissions::ADMIN,
            state_before: snapshot,
            state_after: snapshot,
            outcome,
            detail,
        },
    }
}

impl GovernanceDAO {
    // ====================================================================
    // Initialization
    // ====================================================================

    /// Initialize the governance contract.
    ///
    /// Sets the admin and guardian addresses and initializes default
    /// governance configuration. Can only be called once.
    pub fn initialize(env: &mut GovernanceEnv, admin: Address, guardian: Address) -> (r: Result<
        Symbol,
        Error,
    >)
        requires
            old(env)@.wf(),
        ensures
            effect(initialized(old(env)@, admin, guardian), r, old(env)@, final(env)@),
            final(env)@.wf(),
    {
        if env.admin.is_some() {
            return Err(Error::AlreadyInitialized);
        }
        env.admin = Some(admin);
        env.guardian = Some(guardian);
        env.config = Some(make_default_config());
        env.total_supply = 0;
        env.emergency_paused = false;
        env.publish(GovernanceEvent::Initialized { admin, guardian });
        assert(env@ =~= initialized(old(env)@, admin, guardian)->Ok_0.0);
        Ok(symbol_short("ok"))
    }

    /// Return the current admin address.
    pub fn get_admin(env: &GovernanceEnv) -> (r: Result<Address, Error>)
        ensures
            r == (match env@.admin {
                Some(a) => Ok(a),
                None => Err(Error::NotInitialized),
            }),
    {
        match env.admin {
            Some(a) => Ok(a),
            None => Err(Error::NotInitialized),
        }
    }

    /// Return the current guardian address.
    pub fn get_guardian(env: &GovernanceEnv) -> (r: Result<Address, Error>)
        ensures
            r == (match env@.guardian {
                Some(a) => Ok(a),
                None => Err(Error::NotInitialized),
            }),
    {
        match env.guardian {
            Some(a) => Ok(a),
            None => Err(Error::NotInitialized),
        }
    }

    /// The error of a caller who is not the stored admin.
    fn assert_admin(env: &GovernanceEnv, admin: Address) -> (r: Result<(), Error>)
        ensures
            match admin_error(env@, admin) {
                Some(e) => r == Err::<(), Error>(e),
                None => r is Ok,
            },
    {
        match env.admin {
            None => Err(Error::NotInitialized),
            Some(a) => if a == admin {
                Ok(())
            } else {
                Err(Error::Unauthorized)
            },
        }
    }

    // ====================================================================
    // Configuration
    // ====================================================================

    /// Set the governance configuration. Admin-only.
    pub fn set_config(env: &mut GovernanceEnv, admin: Address, config: GovernanceConfig) -> (r:
        Result<Symbol, Error>)
        requires
            old(env)@.is_admin(admin) ==> old(env)@.authorized(admin),
            old(env)@.next_audit_seq < u64::MAX,
            old(env)@.wf(),
        ensures
            effect(config_set(old(env)@, admin, config), r, old(env)@, final(env)@),
            final(env)@.wf(),
    {
        match Self::assert_admin(env, admin) {
            Ok(()) => {},
            Err(e) => return Err(e),
        }
        if config.voting_period == 0 || config.quorum_threshold_bps == 0
            || config.quorum_threshold_bps > 10_000 || config.approval_threshold_bps == 0
            || config.approval_threshold_bps > 10_000 || config.treasury_multisig_threshold == 0
            || config.max_active_proposals == 0 {
            return Err(Error::InvalidConfig);
        }
        env.config = Some(config);
        assert(env@ =~= (GovernanceState { config: Some(config), ..old(env)@ }));
        env.append_audit("set_cfg", 0, admin, symbol_short("config"));
        Ok(symbol_short("ok"))
    }

    /// Get the current governance configuration.
    pub fn get_config(env: &GovernanceEnv) -> (c: GovernanceConfig)
        ensures
            c == env@.conf(),
    {
        env.conf()
    }

    /// Set the total token supply snapshot (for quorum calculations). Admin-only.
    pub fn set_total_supply(env: &mut GovernanceEnv, admin: Address, total_supply: i128) -> (r:
        Result<Symbol, Error>)
        requires
            old(env)@.is_admin(admin) ==> old(env)@.authorized(admin),
        ensures
            effect(supply_set(old(env)@, admin, total_supply), r, old(env)@, final(env)@),
    {
        match Self::assert_admin(env, admin) {
            Ok(()) => {},
            Err(e) => return Err(e),
        }
        env.total_supply = total_supply;
        assert(env@ =~= supply_set(old(env)@, admin, total_supply)->Ok_0.0);
        Ok(symbol_short("ok"))
    }

    /// Get the total token supply snapshot.
    pub fn get_total_supply(env: &GovernanceEnv) -> (x: i128)
        ensures
            x == env@.total_supply,
    {
        env.total_supply
    }

    // ====================================================================
    // Voting power management
    // ====================================================================

    /// Deposit tokens for voting power.
    ///
    /// Requires authorization from `holder`. Increases the holder's voting
    /// power and the total voting power.
    pub fn deposit_voting_power(env: &mut GovernanceEnv, holder: Address, amount: i128) -> (r: Result<
        i128,
        Error,
    >)
        requires
            old(env)@.authorized(holder),
        ensures
            effect(power_deposited(old(env)@, holder, amount), r, old(env)@, final(env)@),
    {
        if amount <= 0 {
            return Err(Error::InvalidConfig);
        }
        let power: i128 = match Self::get_voting_power(env, holder).checked_add(amount) {
            Some(x) => x,
            None => return Err(Error::InvalidConfig),
        };
        let total: i128 = match env.total_voting_power.checked_add(amount) {
            Some(x) => x,
            None => return Err(Error::InvalidConfig),
        };
        env.voting_power.set(holder, power);
        env.total_voting_power = total;
        env.publish(GovernanceEvent::PowerDeposited { holder, amount, power });
        assert(env@ =~= power_deposited(old(env)@, holder, amount)->Ok_0.0);
        Ok(power)
    }

    /// Withdraw deposited voting power.
    ///
    /// Requires authorization from `holder`. Decreases the holder's voting
    /// power and the total voting power.
    pub fn withdraw_voting_power(env: &mut GovernanceEnv, holder: Address, amount: i128) -> (r:
        Result<i128, Error>)
        requires
            old(env)@.authorized(holder),
        ensures
            effect(power_withdrawn(old(env)@, holder, amount), r, old(env)@, final(env)@),
    {
        if amount <= 0 {
            return Err(Error::InvalidConfig);
        }
        let current: i128 = Self::get_voting_power(env, holder);
        if amount > current {
            return Err(Error::NoVotingPower);
        }
        let power: i128 = current - amount;
        let total: i128 = match env.total_voting_power.checked_sub(amount) {
            Some(x) => x,
            None => return Err(Error::InvalidConfig),
        };
        if power == 0 {
            env.voting_power.remove(holder);
        } else {
            env.voting_power.set(holder, power);
        }
        env.total_voting_power = total;
        env.publish(GovernanceEvent::PowerWithdrawn { holder, amount, power });
        assert(env@ =~= power_withdrawn(old(env)@, holder, amount)->Ok_0.0);
        Ok(power)
    }

    /// Get the voting power for a holder.
    pub fn get_voting_power(env: &GovernanceEnv, holder: Address) -> (x: i128)
        ensures
            x == power_of(env@, holder),
    {
        match env.voting_power.copied(holder) {
            Some(x) => x,
            None => 0,
        }
    }

    /// Get the total deposited voting power.
    pub fn get_total_voting_power(env: &GovernanceEnv) -> (x: i128)
        ensures
            x == env@.total_voting_power,
    {
        env.total_voting_power
    }

    // ====================================================================
    // Proposal system
    // ====================================================================

    /// Submit a new governance proposal.
    ///
    /// Requires the proposer to have at least `proposal_threshold` voting
    /// power. Returns the new proposal id.
    pub fn submit_proposal(
        env: &mut GovernanceEnv,
        proposer: Address,
        title: Symbol,
        description: Symbol,
        action_type: ProposalActionType,
        action_payload: Symbol,
    ) -> (r: Result<u64, Error>)
        requires
            old(env)@.authorized(proposer),
            old(env)@.timestamp + old(env)@.conf().voting_period <= u64::MAX,
            old(env)@.next_proposal_id < u64::MAX,
            old(env)@.next_audit_seq < u64::MAX,
            old(env)@.proposal_ids.len() <= u32::MAX,
        ensures
            effect(
                proposed(
                    old(env)@,
                    proposer,
                    title,
                    description,
                    action_type,
                    action_payload,
                ),
                r,
                old(env)@,
                final(env)@,
            ),
    {
        if env.emergency_paused {
            return Err(Error::AlreadyPaused);
        }
        let config: GovernanceConfig = env.conf();
        if Self::get_voting_power(env, proposer) < config.proposal_threshold {
            return Err(Error::InsufficientVotingPower);
        }
        if Self::count_active_proposals(env, &env.proposal_ids) >= config.max_active_proposals {
            return Err(Error::MaxProposalsReached);
        }
        let proposal_id: u64 = env.next_proposal_id;
        let now: u64 = env.timestamp;
        let proposal = Proposal {
            proposal_id,
            proposer,
            title,
            description,
            action_type,
            action_payload,
            status: ProposalStatus::Voting,
            votes_for: 0,
            votes_against: 0,
            votes_abstain: 0,
            voter_count: 0,
            created_at: now,
            voting_starts: now,
            voting_ends: now + config.voting_period,
            timelock_expiry: 0,
            executed_at: 0,
        };
        env.proposals.set(proposal_id, proposal);
        env.next_proposal_id = proposal_id + 1;
        env.proposal_ids.push(proposal_id);
        env.append_audit("submit", proposal_id, proposer, title);
        env.publish(
            GovernanceEvent::Proposed {
                proposal: ProposalEvent { proposal_id, proposer, title, action_type },
            },
        );
        assert(env@ =~= proposed(
            old(env)@,
            proposer,
            title,
            description,
            action_type,
            action_payload,
        )->Ok_0.0);
        Ok(proposal_id)
    }

    /// Count proposals that are in Voting, Timelock, or Passed status.
    fn count_active_proposals(env: &GovernanceEnv, all_ids: &Vec<u64>) -> (n: u32)
        requires
            all_ids@.len() <= u32::MAX,
        ensures
            n == active_count(env@, all_ids@, all_ids@.len() as int),
    {
        let mut count: u32 = 0;
        let mut i: usize = 0;
        while i < all_ids.len()
            invariant
                i <= all_ids@.len() <= u32::MAX,
                count == active_count(env@, all_ids@, i as int),
                count <= i,
            decreases all_ids@.len() - i,
        {
            match env.proposals.copied(all_ids[i]) {
                Some(p) => {
                    if p.status == ProposalStatus::Voting || p.status == ProposalStatus::Timelock
                        || p.status == ProposalStatus::Passed {
                        count += 1;
                    }
                },
                None => {},
            }
            i += 1;
        }
        count
    }

    /// Get a proposal by id.
    pub fn get_proposal(env: &GovernanceEnv, proposal_id: u64) -> (r: Result<Proposal, Error>)
        ensures
            r == (if env@.proposals.contains_key(proposal_id) {
                Ok(env@.proposals[proposal_id])
            } else {
                Err(Error::ProposalNotFound)
            }),
    {
        match env.proposals.copied(proposal_id) {
            Some(p) => Ok(p),
            None => Err(Error::ProposalNotFound),
        }
    }

    /// Get all proposal ids.
    pub fn get_all_proposal_ids(env: &GovernanceEnv) -> (r: Vec<u64>)
        ensures
            r@ == env@.proposal_ids,
    {
        copy_vec(&env.proposal_ids)
    }

    /// Cancel a proposal. Only the proposer or admin can cancel.
    /// Can only cancel proposals in Submitted or Voting status.
    pub fn cancel_proposal(env: &mut GovernanceEnv, caller: Address, proposal_id: u64) -> (r: Result<
        Symbol,
        Error,
    >)
        requires
            old(env)@.authorized(caller),
            old(env)@.next_audit_seq < u64::MAX,
        ensures
            effect(proposal_cancelled(old(env)@, caller, proposal_id), r, old(env)@, final(env)@),
    {
        let mut proposal: Proposal = match Self::get_proposal(env, proposal_id) {
            Ok(p) => p,
            Err(e) => return Err(e),
        };
        let admin: Address = match env.admin {
            Some(a) => a,
            None => return Err(Error::NotInitialized),
        };
        if caller != proposal.proposer && caller != admin {
            return Err(Error::CannotCancel);
        }
        if proposal.status != ProposalStatus::Submitted && proposal.status
            != ProposalStatus::Voting {
            return Err(Error::CannotCancel);
        }
        proposal.status = ProposalStatus::Cancelled;
        env.proposals.set(proposal_id, proposal);
        env.append_audit("cancel", proposal_id, caller, symbol_short("cancelled"));
        assert(env@ =~= proposal_cancelled(old(env)@, caller, proposal_id)->Ok_0.0);
        Ok(symbol_short("ok"))
    }

    // ====================================================================
    // Voting
    // ====================================================================

    /// The proposal, if a vote of the holder on it can be counted, and its weight.
    fn votable(env: &GovernanceEnv, proposal_id: u64, holder: Address) -> (r: Result<
        (Proposal, i128),
        Error,
    >)
        ensures
            match vote_error(env@, proposal_id, holder) {
                Some(e) => r == Err::<(Proposal, i128), Error>(e),
                None => r == Ok::<(Proposal, i128), Error>(
                    (env@.proposals[proposal_id], power_of(env@, holder)),
                ),
            },
    {
        let proposal: Proposal = match Self::get_proposal(env, proposal_id) {
            Ok(p) => p,
            Err(e) => return Err(e),
        };
        if proposal.status != ProposalStatus::Voting {
            return Err(Error::NotVotable);
        }
        if env.timestamp > proposal.voting_ends {
            return Err(Error::VotingAlreadyEnded);
        }
        if env.votes.has((proposal_id, holder)) {
            return Err(Error::AlreadyVoted);
        }
        let weight: i128 = Self::get_voting_power(env, holder);
        if weight <= 0 {
            return Err(Error::NoVotingPower);
        }
        Ok((proposal, weight))
    }

    /// Records and counts a vote.
    fn count_vote(
        env: &mut GovernanceEnv,
        proposal: Proposal,
        voter: Address,
        holder: Address,
        proposal_id: u64,
        direction: VoteDirection,
        weight: i128,
        is_delegated: bool,
    )
        requires
            old(env)@.proposals.contains_key(proposal_id),
            proposal == old(env)@.proposals[proposal_id],
            weight == power_of(old(env)@, holder),
            tally_room(old(env)@, proposal_id, direction, holder),
        ensures
            final(env)@ == vote_counted(
                old(env)@,
                voter,
                holder,
                proposal_id,
                direction,
                is_delegated,
            ),
    {
        let vote = VoteRecord {
            proposal_id,
            voter,
            token_holder: holder,
            weight,
            direction,
            timestamp: env.timestamp,
            is_delegated,
        };
        env.votes.set((proposal_id, holder), vote);
        let mut p: Proposal = proposal;
        match direction {
            VoteDirection::For => {
                p.votes_for = p.votes_for + weight;
            },
            VoteDirection::Against => {
                p.votes_against = p.votes_against + weight;
            },
            VoteDirection::Abstain => {
                p.votes_abstain = p.votes_abstain + weight;
            },
        }
        p.voter_count = p.voter_count + 1;
        env.proposals.set(proposal_id, p);
        assert(env@ =~= vote_counted(
            old(env)@,
            voter,
            holder,
            proposal_id,
            direction,
            is_delegated,
        ));
    }

    /// Cast a vote on an active proposal.
    ///
    /// Requires the voter to have deposited voting power. The vote weight
    /// equals the voter's current deposited voting power.
    pub fn cast_vote(
        env: &mut GovernanceEnv,
        voter: Address,
        proposal_id: u64,
        direction: VoteDirection,
    ) -> (r: Result<Symbol, Error>)
        requires
            old(env)@.authorized(voter),
            old(env)@.next_audit_seq < u64::MAX,
            tally_room(old(env)@, proposal_id, direction, voter),
        ensures
            effect(voted(old(env)@, voter, proposal_id, direction), r, old(env)@, final(env)@),
    {
        if env.emergency_paused {
            return Err(Error::AlreadyPaused);
        }
        let (proposal, weight): (Proposal, i128) = match Self::votable(env, proposal_id, voter) {
            Ok(x) => x,
            Err(e) => return Err(e),
        };
        Self::count_vote(env, proposal, voter, voter, proposal_id, direction, weight, false);
        env.append_audit("vote", proposal_id, voter, symbol_short("cast"));
        env.publish(
            GovernanceEvent::Voted { vote: VoteEvent { proposal_id, voter, direction, weight } },
        );
        Ok(symbol_short("ok"))
    }

    /// Cast a vote on behalf of a delegated token holder.
    ///
    /// The `delegate` must have an active delegation from `token_holder`.
    /// The vote weight equals the token holder's deposited voting power.
    pub fn cast_delegated_vote(
        env: &mut GovernanceEnv,
        delegate: Address,
        token_holder: Address,
        proposal_id: u64,
        direction: VoteDirection,
    ) -> (r: Result<Symbol, Error>)
        requires
            old(env)@.authorized(delegate),
            old(env)@.next_audit_seq < u64::MAX,
            tally_room(old(env)@, proposal_id, direction, token_holder),
        ensures
            effect(
                delegate_voted(old(env)@, delegate, token_holder, proposal_id, direction),
                r,
                old(env)@,
                final(env)@,
            ),
    {
        if env.emergency_paused {
            return Err(Error::AlreadyPaused);
        }
        match env.delegations.copied(token_holder) {
            None => return Err(Error::DelegationNotFound),
            Some(d) => {
                if !d.active || d.delegate != delegate {
                    return Err(Error::DelegationNotFound);
                }
            },
        }
        let (proposal, weight): (Proposal, i128) = match Self::votable(
            env,
            proposal_id,
            token_holder,
        ) {
            Ok(x) => x,
            Err(e) => return Err(e),
        };
        Self::count_vote(
            env,
            proposal,
            delegate,
            token_holder,
            proposal_id,
            direction,
            weight,
            true,
        );
        env.append_audit("del_vote", proposal_id, delegate, symbol_short("del_vote"));
        env.publish(
            GovernanceEvent::DelegateVoted {
                delegate,
                vote: VoteEvent { proposal_id, voter: token_holder, direction, weight },
            },
        );
        Ok(symbol_short("ok"))
    }

    /// Get a specific vote record.
    pub fn get_vote(env: &GovernanceEnv, proposal_id: u64, voter: Address) -> (r: Option<VoteRecord>)
        ensures
            r == (if env@.votes.contains_key((proposal_id, voter)) {
                Some(env@.votes[(proposal_id, voter)])
            } else {
                None
            }),
    {
        env.votes.copied((proposal_id, voter))
    }

    // ====================================================================
    // Proposal finalization
    // ====================================================================

    /// Finalize a proposal after the voting period has ended.
    ///
    /// Checks quorum and approval thresholds. Transitions the proposal
    /// to Passed or Defeated.
    pub fn finalize_proposal(env: &mut GovernanceEnv, proposal_id: u64) -> (r: Result<
        ProposalStatus,
        Error,
    >)
        requires
            old(env)@.next_audit_seq < u64::MAX,
            votes_fit(old(env)@, proposal_id),
        ensures
            effect(finalized(old(env)@, proposal_id), r, old(env)@, final(env)@),
    {
        let mut proposal: Proposal = match Self::get_proposal(env, proposal_id) {
            Ok(p) => p,
            Err(e) => return Err(e),
        };
        if proposal.status != ProposalStatus::Voting {
            return Err(Error::VotingAlreadyEnded);
        }
        if env.timestamp <= proposal.voting_ends {
            return Err(Error::VotingNotEnded);
        }
        let config: GovernanceConfig = env.conf();
        let net: i128 = proposal.votes_for + proposal.votes_against;
        let total: i128 = net + proposal.votes_abstain;
        proof {
            lemma_quot_bounds(env@.total_supply * config.quorum_threshold_bps, 10_000);
        }
        let quorum: i128 = match checked_mul_div(
            env.total_supply,
            config.quorum_threshold_bps as i128,
            10_000,
        ) {
            Some(x) => x,
            None => return Err(Error::InvalidConfig),
        };
        if total < quorum {
            proposal.status = ProposalStatus::Defeated;
            env.proposals.set(proposal_id, proposal);
            env.append_audit("defeat", proposal_id, proposal.proposer, symbol_short("quorum"));
            assert(env@ =~= finalized(old(env)@, proposal_id)->Ok_0.0);
            return Ok(ProposalStatus::Defeated);
        }
        if net == 0 {
            proposal.status = ProposalStatus::Defeated;
            env.proposals.set(proposal_id, proposal);
            assert(env@ =~= finalized(old(env)@, proposal_id)->Ok_0.0);
            return Ok(ProposalStatus::Defeated);
        }
        let scaled: i128 = match net.checked_mul(config.approval_threshold_bps as i128) {
            Some(x) => x,
            None => return Err(Error::InvalidConfig),
        };
        let needed: i128 = ceil_quot(scaled, 10_000);
        proof {
            lemma_below_ceil(scaled as int, 10_000, needed as int, proposal.votes_for as int);
        }
        if proposal.votes_for < needed {
            proposal.status = ProposalStatus::Defeated;
            env.proposals.set(proposal_id, proposal);
            env.append_audit("defeat", proposal_id, proposal.proposer, symbol_short("approval"));
            assert(env@ =~= finalized(old(env)@, proposal_id)->Ok_0.0);
            return Ok(ProposalStatus::Defeated);
        }
        proposal.status = ProposalStatus::Passed;
        env.proposals.set(proposal_id, proposal);
        env.append_audit("pass", proposal_id, proposal.proposer, symbol_short("passed"));
        env.publish(
            GovernanceEvent::Passed {
                proposal_id,
                votes_for: proposal.votes_for,
                votes_against: proposal.votes_against,
                total_votes: total,
            },
        );
        assert(env@ =~= finalized(old(env)@, proposal_id)->Ok_0.0);
        Ok(ProposalStatus::Passed)
    }

    // ====================================================================
    // Timelock
    // ====================================================================

    /// Queue a passed proposal into the timelock.
    ///
    /// Can only be called on proposals with `Passed` status.
    pub fn queue_timelock(env: &mut GovernanceEnv, proposal_id: u64) -> (r: Result<Symbol, Error>)
        requires
            old(env)@.next_audit_seq < u64::MAX,
            old(env)@.proposals.contains_key(proposal_id) ==> old(env)@.timestamp + proposal_delay(
                old(env)@,
                old(env)@.proposals[proposal_id],
            ) <= u64::MAX,
        ensures
            effect(queued(old(env)@, proposal_id), r, old(env)@, final(env)@),
    {
        let mut proposal: Proposal = match Self::get_proposal(env, proposal_id) {
            Ok(p) => p,
            Err(e) => return Err(e),
        };
        if proposal.status != ProposalStatus::Passed {
            return Err(Error::CannotTimelock);
        }
        let config: GovernanceConfig = env.conf();
        let is_emergency: bool = proposal.action_type == ProposalActionType::EmergencyAction;
        let delay: u64 = timelock::effective_delay(is_emergency, &config);
        let entry = match timelock::schedule(env, proposal_id, delay) {
            Ok(x) => x,
            Err(_) => return Err(Error::CannotTimelock),
        };
        proposal.status = ProposalStatus::Timelock;
        proposal.timelock_expiry = entry.execute_after;
        env.proposals.set(proposal_id, proposal);
        env.append_audit("tl_queue", proposal_id, proposal.proposer, symbol_short("queued"));
        assert(env@ =~= queued(old(env)@, proposal_id)->Ok_0.0);
        Ok(symbol_short("ok"))
    }

    /// Execute a proposal after its timelock has expired.
    ///
    /// Transitions the proposal to `Executed`. The actual execution logic
    /// (WASM upgrade, treasury transfer, etc.) is handled by the caller
    /// or external integration; this records the state change.
    pub fn execute_proposal(env: &mut GovernanceEnv, proposal_id: u64, executor: Address) -> (r:
        Result<Symbol, Error>)
        requires
            old(env)@.authorized(executor),
            old(env)@.next_audit_seq < u64::MAX,
        ensures
            effect(executed(old(env)@, proposal_id, executor), r, old(env)@, final(env)@),
    {
        let mut proposal: Proposal = match Self::get_proposal(env, proposal_id) {
            Ok(p) => p,
            Err(e) => return Err(e),
        };
        if proposal.status != ProposalStatus::Timelock {
            return Err(Error::CannotExecute);
        }
        match timelock::check_ready(env, proposal_id) {
            Ok(_) => {},
            Err(_) => return Err(Error::TimelockNotExpired),
        }
        match timelock::mark_executed(env, proposal_id) {
            Ok(_) => {},
            Err(_) => return Err(Error::CannotExecute),
        }
        let now: u64 = env.timestamp;
        proposal.status = ProposalStatus::Executed;
        proposal.executed_at = now;
        env.proposals.set(proposal_id, proposal);
        env.append_audit("execute", proposal_id, executor, symbol_short("executed"));
        env.publish(GovernanceEvent::Executed { proposal_id, executor, at: now });
        assert(env@ =~= executed(old(env)@, proposal_id, executor)->Ok_0.0);
        Ok(symbol_short("ok"))
    }

    // ====================================================================
    // Delegation
    // ====================================================================

    /// Delegate voting power to another address.
    ///
    /// Creates or updates a delegation record. The delegate can cast votes
    /// on behalf of the delegator using `cast_delegated_vote`.
    pub fn delegate(env: &mut GovernanceEnv, delegator: Address, delegate_addr: Address) -> (r:
        Result<Symbol, Error>)
        requires
            old(env)@.authorized(delegator),
            old(env)@.next_audit_seq < u64::MAX,
        ensures
            effect(delegated(old(env)@, delegator, delegate_addr), r, old(env)@, final(env)@),
    {
        if delegator == delegate_addr {
            return Err(Error::CannotDelegateToSelf);
        }
        let delegation = Delegation {
            delegator,
            delegate: delegate_addr,
            created_at: env.timestamp,
            active: true,
        };
        env.delegations.set(delegator, delegation);
        if !has_address(&env.delegators, delegator) {
            env.delegators.push(delegator);
        }
        env.append_audit("delegate", 0, delegator, symbol_short("delegate"));
        env.publish(
            GovernanceEvent::Delegated {
                delegation: DelegationEvent { delegator, delegate: delegate_addr, active: true },
            },
        );
        assert(env@ =~= delegated(old(env)@, delegator, delegate_addr)->Ok_0.0);
        Ok(symbol_short("ok"))
    }

    /// Revoke a delegation.
    pub fn revoke_delegation(env: &mut GovernanceEnv, delegator: Address) -> (r: Result<
        Symbol,
        Error,
    >)
        requires
            old(env)@.authorized(delegator),
            old(env)@.next_audit_seq < u64::MAX,
        ensures
            effect(revoked(old(env)@, delegator), r, old(env)@, final(env)@),
    {
        let mut delegation: Delegation = match env.delegations.copied(delegator) {
            Some(d) => d,
            None => return Err(Error::DelegationNotFound),
        };
        delegation.active = false;
        env.delegations.set(delegator, delegation);
        treasury::remove_address(&mut env.delegators, delegator);
        env.append_audit("rvk_del", 0, delegator, symbol_short("rvk_del"));
        env.publish(
            GovernanceEvent::DelegationRevoked {
                delegation: DelegationEvent { delegator, delegate: delegation.delegate, active: false },
            },
        );
        assert(env@ =~= revoked(old(env)@, delegator)->Ok_0.0);
        Ok(symbol_short("ok"))
    }

    /// Get the delegation for a delegator.
    pub fn get_delegation(env: &GovernanceEnv, delegator: Address) -> (r: Option<Delegation>)
        ensures
            r == (if env@.delegations.contains_key(delegator) {
                Some(env@.delegations[delegator])
            } else {
                None
            }),
    {
        env.delegations.copied(delegator)
    }

    /// Get all active delegators.
    pub fn get_all_delegators(env: &GovernanceEnv) -> (r: Vec<Address>)
        ensures
            r@ == env@.delegators,
    {
        copy_vec(&env.delegators)
    }

    // ====================================================================
    // Treasury integration
    // ====================================================================

    /// Deposit funds into the treasury.
    pub fn treasury_deposit(
        env: &mut GovernanceEnv,
        depositor: Address,
        asset: Symbol,
        amount: i128,
    ) -> (r: Result<i128, TreasuryError>)
        requires
            old(env)@.authorized(depositor),
            old(env)@.wf(),
        ensures
            effect(
                treasury::deposited(old(env)@, depositor, asset, amount),
                r,
                old(env)@,
                final(env)@,
            ),
            final(env)@.wf(),
    {
        treasury::deposit(env, depositor, asset, amount)
    }

    /// Get the treasury balance for an asset.
    pub fn treasury_balance(env: &GovernanceEnv, asset: Symbol) -> (x: i128)
        ensures
            x == value_or(env@.treasury_balances, asset, 0),
    {
        treasury::balance_of(env, asset)
    }

    /// Get all treasury assets.
    pub fn treasury_all_assets(env: &GovernanceEnv) -> (r: Vec<Symbol>)
        ensures
            r@ == env@.treasury_assets,
    {
        treasury::all_assets(env)
    }

    /// Create a treasury withdrawal request.
    pub fn treasury_create_request(
        env: &mut GovernanceEnv,
        requester: Address,
        recipient: Address,
        amount: i128,
        asset: Symbol,
        reason: Symbol,
    ) -> (r: Result<u64, TreasuryError>)
        requires
            old(env)@.authorized(requester),
            old(env)@.wf(),
            old(env)@.next_request_id < u64::MAX,
        ensures
            effect(
                treasury::requested(
                    old(env)@,
                    requester,
                    recipient,
                    amount,
                    asset,
                    reason,
                    old(env)@.conf(),
                ),
                r,
                old(env)@,
                final(env)@,
            ),
            final(env)@.wf(),
    {
        let config: GovernanceConfig = env.conf();
        treasury::create_request(env, requester, recipient, amount, asset, reason, &config)
    }

    /// Approve a treasury withdrawal request.
    pub fn treasury_approve_request(env: &mut GovernanceEnv, signer: Address, request_id: u64) -> (r:
        Result<TreasuryRequest, TreasuryError>)
        requires
            old(env)@.authorized(signer),
            old(env)@.wf(),
            old(env)@.treasury_requests.contains_key(request_id)
                ==> old(env)@.treasury_requests[request_id].approvals.len() < u32::MAX,
        ensures
            match treasury::approved(old(env)@, signer, request_id) {
                Ok((s, request)) => r is Ok && r->Ok_0@ == request && final(env)@ == s,
                Err(e) => r is Err && r->Err_0 == e && final(env)@ == old(env)@,
            },
            final(env)@.wf(),
    {
        treasury::approve_request(env, signer, request_id)
    }

    /// Execute a treasury withdrawal request.
    pub fn treasury_execute_request(env: &mut GovernanceEnv, request_id: u64) -> (r: Result<
        i128,
        TreasuryError,
    >)
        requires
            old(env)@.wf(),
        ensures
            effect(treasury_executed(old(env)@, request_id), r, old(env)@, final(env)@),
            final(env)@.wf(),
    {
        if env.emergency_paused {
            return Err(TreasuryError::SystemPaused);
        }
        let config: GovernanceConfig = env.conf();
        treasury::execute_request(env, request_id, &config)
    }

    /// Get a treasury request by id.
    pub fn treasury_get_request(env: &GovernanceEnv, request_id: u64) -> (r: Option<TreasuryRequest>)
        ensures
            match r {
                Some(x) => env@.treasury_requests.contains_key(request_id) && x@
                    == env@.treasury_requests[request_id],
                None => !env@.treasury_requests.contains_key(request_id),
            },
    {
        treasury::get_request(env, request_id)
    }

    /// Add a treasury multi-sig signer. Admin-only.
    pub fn treasury_add_signer(env: &mut GovernanceEnv, admin: Address, signer: Address) -> (r:
        Result<Symbol, TreasuryError>)
        requires
            old(env)@.authorized(admin),
        ensures
            effect(treasury::signer_added(old(env)@, admin, signer), r, old(env)@, final(env)@),
    {
        treasury::add_signer(env, admin, signer)
    }

    /// Remove a treasury multi-sig signer. Admin-only.
    pub fn treasury_remove_signer(env: &mut GovernanceEnv, admin: Address, signer: Address) -> (r:
        Result<Symbol, TreasuryError>)
        requires
            old(env)@.authorized(admin),
        ensures
            effect(treasury::signer_removed(old(env)@, admin, signer), r, old(env)@, final(env)@),
    {
        treasury::remove_signer(env, admin, signer)
    }

    /// Get all treasury signers.
    pub fn treasury_get_signers(env: &GovernanceEnv) -> (r: Vec<Address>)
        ensures
            r@ == env@.treasury_signers,
    {
        treasury::get_signers(env)
    }

    // ====================================================================
    // Emergency controls
    // ====================================================================

    /// The stored admin and guardian, if the caller is one of them.
    fn assert_guardian(env: &GovernanceEnv, caller: Address) -> (r: Result<(), Error>)
        ensures
            if env@.admin is None || env@.guardian is None {
                r == Err::<(), Error>(Error::NotInitialized)
            } else if !env@.is_admin(caller) && env@.guardian != Some(caller) {
                r == Err::<(), Error>(Error::GuardianRequired)
            } else {
                r is Ok
            },
    {
        match env.admin {
            None => Err(Error::NotInitialized),
            Some(admin) => match env.guardian {
                None => Err(Error::NotInitialized),
                Some(guardian) => if caller != admin && caller != guardian {
                    Err(Error::GuardianRequired)
                } else {
                    Ok(())
                },
            },
        }
    }

    /// Emergency pause the governance system.
    ///
    /// Can be called by the guardian or admin. Prevents new proposals,
    /// voting, and treasury withdrawals.
    pub fn emergency_pause(env: &mut GovernanceEnv, caller: Address) -> (r: Result<Symbol, Error>)
        requires
            old(env)@.authorized(caller),
            old(env)@.next_audit_seq < u64::MAX,
        ensures
            effect(paused(old(env)@, caller), r, old(env)@, final(env)@),
    {
        match Self::assert_guardian(env, caller) {
            Ok(()) => {},
            Err(e) => return Err(e),
        }
        if env.emergency_paused {
            return Err(Error::AlreadyPaused);
        }
        env.emergency_paused = true;
        env.append_audit("em_pause", 0, caller, symbol_short("paused"));
        env.publish(GovernanceEvent::Paused { caller });
        assert(env@ =~= paused(old(env)@, caller)->Ok_0.0);
        Ok(symbol_short("ok"))
    }

    /// Emergency unpause the governance system. Admin-only.
    pub fn emergency_unpause(env: &mut GovernanceEnv, admin: Address) -> (r: Result<Symbol, Error>)
        requires
            old(env)@.authorized(admin),
            old(env)@.next_audit_seq < u64::MAX,
        ensures
            effect(unpaused(old(env)@, admin), r, old(env)@, final(env)@),
    {
        match Self::assert_admin(env, admin) {
            Ok(()) => {},
            Err(e) => return Err(e),
        }
        if !env.emergency_paused {
            return Err(Error::NotPaused);
        }
        env.emergency_paused = false;
        env.append_audit("em_unpse", 0, admin, symbol_short("unpaused"));
        env.publish(GovernanceEvent::Unpaused { admin });
        assert(env@ =~= unpaused(old(env)@, admin)->Ok_0.0);
        Ok(symbol_short("ok"))
    }

    /// Check if the system is emergency-paused.
    pub fn is_emergency_paused(env: &GovernanceEnv) -> (b: bool)
        ensures
            b == env@.emergency_paused,
    {
        env.emergency_paused
    }

    /// Emergency execute a proposal, bypassing timelock.
    ///
    /// Can only be called by admin + guardian (multi-sig) together.
    /// This is for critical security responses.
    pub fn emergency_execute(env: &mut GovernanceEnv, caller: Address, proposal_id: u64) -> (r:
        Result<Symbol, Error>)
        requires
            dual_signed(old(env)@, caller),
            old(env)@.next_audit_seq < u64::MAX,
        ensures
            effect(emergency_executed(old(env)@, caller, proposal_id), r, old(env)@, final(env)@),
    {
        match Self::assert_guardian(env, caller) {
            Ok(()) => {},
            Err(e) => return Err(e),
        }
        let mut proposal: Proposal = match Self::get_proposal(env, proposal_id) {
            Ok(p) => p,
            Err(e) => return Err(e),
        };
        if proposal.status == ProposalStatus::Executed || proposal.status
            == ProposalStatus::Cancelled || proposal.status == ProposalStatus::ExecutionFailed {
            return Err(Error::CannotExecute);
        }
        let now: u64 = env.timestamp;
        proposal.status = ProposalStatus::Executed;
        proposal.executed_at = now;
        env.proposals.set(proposal_id, proposal);
        env.append_audit("em_exec", proposal_id, caller, symbol_short("emergency"));
        env.publish(GovernanceEvent::EmergencyExecuted { caller, proposal_id, at: now });
        assert(env@ =~= emergency_executed(old(env)@, caller, proposal_id)->Ok_0.0);
        Ok(symbol_short("ok"))
    }

    // ====================================================================
    // Rewards
    // ====================================================================

    /// Claim governance reward for participating in a proposal vote.
    ///
    /// Each voter can claim once per proposal. The reward amount is
    /// configured in `GovernanceConfig.reward_per_participation`.
    pub fn claim_rewards(env: &mut GovernanceEnv, voter: Address, proposal_id: u64) -> (r: Result<
        i128,
        Error,
    >)
        requires
            old(env)@.authorized(voter),
            old(env)@.next_audit_seq < u64::MAX,
            fits(old(env)@.total_rewards + old(env)@.conf().reward_per_participation),
        ensures
            effect(reward_claimed(old(env)@, voter, proposal_id), r, old(env)@, final(env)@),
    {
        if Self::has_claimed_reward(env, proposal_id, voter) {
            return Err(Error::RewardAlreadyClaimed);
        }
        if !env.votes.has((proposal_id, voter)) {
            return Err(Error::NoVotingPower);
        }
        let reward: i128 = env.conf().reward_per_participation;
        env.rewards_claimed.set((proposal_id, voter), true);
        env.total_rewards = env.total_rewards + reward;
        env.append_audit("reward", proposal_id, voter, symbol_short("claimed"));
        env.publish(GovernanceEvent::RewardClaimed { voter, proposal_id, reward });
        assert(env@ =~= reward_claimed(old(env)@, voter, proposal_id)->Ok_0.0);
        Ok(reward)
    }

    /// Check if a voter has claimed rewards for a proposal.
    pub fn has_claimed_reward(env: &GovernanceEnv, proposal_id: u64, voter: Address) -> (b: bool)
        ensures
            b == value_or(env@.rewards_claimed, (proposal_id, voter), false),
    {
        match env.rewards_claimed.copied((proposal_id, voter)) {
            Some(b) => b,
            None => false,
        }
    }

    /// Get total rewards distributed.
    pub fn total_rewards_distributed(env: &GovernanceEnv) -> (x: i128)
        ensures
            x == env@.total_rewards,
    {
        env.total_rewards
    }

    // ====================================================================
    // Query helpers
    // ====================================================================

    /// Get quorum information for a proposal: the votes cast, the votes
    /// needed, and whether that suffices.
    pub fn get_quorum_info(env: &GovernanceEnv, proposal_id: u64) -> (r: Result<
        (i128, i128, bool),
        Error,
    >)
        requires
            votes_fit(env@, proposal_id),
            fits(env@.total_supply * env@.conf().quorum_threshold_bps),
        ensures
            r == (if env@.proposals.contains_key(proposal_id) {
                let votes = total_votes(env@.proposals[proposal_id]);
                Ok((votes as i128, quorum_of(env@) as i128, votes >= quorum_of(env@)))
            } else {
                Err(Error::ProposalNotFound)
            }),
    {
        let proposal: Proposal = match Self::get_proposal(env, proposal_id) {
            Ok(p) => p,
            Err(e) => return Err(e),
        };
        let config: GovernanceConfig = env.conf();
        let total: i128 = proposal.votes_for + proposal.votes_against + proposal.votes_abstain;
        proof {
            lemma_quot_bounds(env@.total_supply * config.quorum_threshold_bps, 10_000);
        }
        let quorum: i128 = match checked_mul_div(
            env.total_supply,
            config.quorum_threshold_bps as i128,
            10_000,
        ) {
            Some(x) => x,
            None => 0,
        };
        Ok((total, quorum, total >= quorum))
    }

    /// Count delegations that are currently active.
    fn count_active_delegations(env: &GovernanceEnv, delegators: &Vec<Address>) -> (n: u32)
        requires
            delegators@.len() <= u32::MAX,
        ensures
            n == delegation_count(env@, delegators@, delegators@.len() as int),
    {
        let mut count: u32 = 0;
        let mut i: usize = 0;
        while i < delegators.len()
            invariant
                i <= delegators@.len() <= u32::MAX,
                count == delegation_count(env@, delegators@, i as int),
                count <= i,
            decreases delegators@.len() - i,
        {
            match env.delegations.copied(delegators[i]) {
                Some(d) => {
                    if d.active {
                        count += 1;
                    }
                },
                None => {},
            }
            i += 1;
        }
        count
    }

    /// Get a governance summary snapshot.
    pub fn get_governance_summary(env: &GovernanceEnv) -> (r: GovernanceSummary)
        requires
            env@.proposal_ids.len() <= u32::MAX,
            env@.delegators.len() <= u32::MAX,
            treasury_fits(env@),
        ensures
            r == summary_of(env@),
    {
        let mut balance: i128 = 0;
        let mut i: usize = 0;
        while i < env.treasury_assets.len()
            invariant
                i <= env@.treasury_assets.len(),
                treasury_fits(env@),
                balance == treasury_total(env@, env@.treasury_assets, i as int),
            decreases env@.treasury_assets.len() - i,
        {
            assert(fits(treasury_total(env@, env@.treasury_assets, i + 1)));
            balance = balance + treasury::balance_of(env, env.treasury_assets[i]);
            i += 1;
        }
        GovernanceSummary {
            total_proposals: env.proposal_ids.len() as u64,
            active_proposals: Self::count_active_proposals(env, &env.proposal_ids),
            total_voting_power: env.total_voting_power,
            active_delegations: Self::count_active_delegations(env, &env.delegators),
            treasury_balance: balance,
            emergency_paused: env.emergency_paused,
        }
    }

    // ====================================================================
    // Audit trail
    // ====================================================================

    /// Get the full governance audit trail.
    pub fn get_audit_trail(env: &GovernanceEnv) -> (r: Vec<GovernanceAuditEntry>)
        ensures
            r@ == env@.audit_trail,
    {
        copy_vec(&env.audit_trail)
    }

    /// Get audit trail entries for a specific proposal.
    pub fn get_audit_trail_for_proposal(env: &GovernanceEnv, proposal_id: u64) -> (r: Vec<
        GovernanceAuditEntry,
    >)
        ensures
            r@ == trail_of(env@.audit_trail, proposal_id, env@.audit_trail.len() as int),
    {
        let mut found: Vec<GovernanceAuditEntry> = Vec::new();
        let mut i: usize = 0;
        assert(found@ =~= trail_of(env@.audit_trail, proposal_id, 0));
        while i < env.audit_trail.len()
            invariant
                i <= env@.audit_trail.len(),
                found@ == trail_of(env@.audit_trail, proposal_id, i as int),
            decreases env@.audit_trail.len() - i,
        {
            let entry: GovernanceAuditEntry = env.audit_trail[i];
            if entry.proposal_id == proposal_id {
                found.push(entry);
            }
            i += 1;
        }
        found
    }

    // ====================================================================
    // Audit-log sink (cross-contract integration)
    // ====================================================================

    /// Configure the audit-log sink address. Admin-only.
    pub fn set_audit_sink(env: &mut GovernanceEnv, admin: Address, sink: Address) -> (r: Result<
        Symbol,
        Error,
    >)
        requires
            old(env)@.is_admin(admin) ==> old(env)@.authorized(admin),
        ensures
            effect(sink_set(old(env)@, admin, sink), r, old(env)@, final(env)@),
    {
        match Self::assert_admin(env, admin) {
            Ok(()) => {},
            Err(e) => return Err(e),
        }
        env.audit_sink = Some(sink);
        assert(env@ =~= sink_set(old(env)@, admin, sink)->Ok_0.0);
        Ok(symbol_short("ok"))
    }

    /// Read the audit-log sink address, if configured.
    pub fn get_audit_sink(env: &GovernanceEnv) -> (r: Option<Address>)
        ensures
            r == env@.audit_sink,
    {
        env.audit_sink
    }

    /// The call that tells the audit-log sink, if one is configured, of an
    /// administrative event on a proposal.
    pub fn log_audit_if_configured(
        env: &GovernanceEnv,
        actor: Address,
        proposal_id: u64,
        outcome: Symbol,
        detail: &str,
    ) -> (r: Option<AuditCall>)
        ensures
            match r {
                Some(call) => env@.audit_sink is Some && call@ == audit_call(
                    env@.audit_sink->Some_0,
                    actor,
                    proposal_id,
                    outcome,
                    detail@,
                ),
                None => env@.audit_sink is None,
            },
    {
        match env.audit_sink {
            Some(sink) => {
                let mut before = StateSnapshot::empty();
                before.push(symbol_short("prpid"), proposal_id as i128);
                let mut after = StateSnapshot::empty();
                after.push(symbol_short("prpid"), proposal_id as i128);
                let call = AuditCall {
                    sink,
                    actor,
                    event_type: AuditEventType::AdminAction,
                    portfolio: symbol_short("gov"),
                    permissions: permissions::ADMIN,
                    state_before: before,
                    state_after: after,
                    outcome,
                    detail: detail.to_owned(),
                };
                assert(call@ =~= audit_call(sink, actor, proposal_id, outcome, detail@));
                Some(call)
            },
            None => None,
        }
    }
}

} // verus!
