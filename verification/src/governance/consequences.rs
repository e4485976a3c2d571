//! What governance does, call by call, in terms of the stored configuration,
//! tallies and balances and of what callers hand in and get back.

use vstd::prelude::*;

use crate::base::address::Address;
use crate::base::arith::{fits, lemma_quot_bounds, lemma_quot_rest};
use crate::base::symbol::Symbol;
use crate::governance::contract::{
    active_count, config_set, delegate_voted, delegated, emergency_executed, executed, finalized,
    initialized, paused, power_deposited, power_withdrawn, proposal_cancelled, proposed, queued,
    revoked, reward_claimed, supply_set, treasury_executed, unpaused, voted,
};
use crate::governance::records::{
    Delegation, GovernanceConfig, Proposal, ProposalActionType, ProposalStatus, TimelockStatus,
    VoteDirection, VoteRecord,
};
use crate::governance::state::GovernanceState;
use crate::governance::treasury;

verus! {

// ---------------------------------------------------------------------------
// Configuration
// ---------------------------------------------------------------------------

/// The configuration in force: the stored one, or else the documented
/// defaults.
pub proof fn the_stored_configuration_is_in_force(s: GovernanceState)
    ensures
        s.config is Some ==> s.conf() == s.config->Some_0,
        s.config is None ==> s.conf() == (GovernanceConfig {
            proposal_threshold: 1_000,
            voting_period: 604_800,
            quorum_threshold_bps: 400,
            approval_threshold_bps: 5_001,
            timelock_delay: 172_800,
            emergency_timelock_delay: 3_600,
            max_treasury_spend_bps: 1_000,
            treasury_multisig_threshold: 2,
            reward_per_participation: 10,
            max_active_proposals: 10,
        }),
{
}

/// The administrator, and nobody else, sets the supply and a configuration
/// that has a voting period, thresholds of more than nothing and at most the
/// whole, and room for signers and proposals. What was set is in force, and
/// nothing else changes but the trail.
pub proof fn the_administrator_configures(
    s: GovernanceState,
    caller: Address,
    c: GovernanceConfig,
    supply: i128,
)
    ensures
        config_set(s, caller, c) is Ok <==> {
            &&& s.admin == Some(caller)
            &&& c.voting_period > 0
            &&& 0 < c.quorum_threshold_bps <= 10_000
            &&& 0 < c.approval_threshold_bps <= 10_000
            &&& c.treasury_multisig_threshold > 0
            &&& c.max_active_proposals > 0
        },
        config_set(s, caller, c) is Ok ==> ({
            let t = config_set(s, caller, c)->Ok_0.0;
            &&& t.conf() == c
            &&& t == GovernanceState {
                config: Some(c),
                audit_trail: t.audit_trail,
                next_audit_seq: t.next_audit_seq,
                ..s
            }
        }),
        supply_set(s, caller, supply) is Ok <==> s.admin == Some(caller),
        supply_set(s, caller, supply) is Ok ==> supply_set(s, caller, supply)->Ok_0.0 == (
        GovernanceState { total_supply: supply, ..s }),
{
}

/// A contract is initialized once; it then has the given roles, the default
/// configuration and no pause.
pub proof fn initializing_sets_the_roles(s: GovernanceState, admin: Address, guardian: Address)
    ensures
        initialized(s, admin, guardian) is Ok <==> s.admin is None,
        initialized(s, admin, guardian) is Ok ==> ({
            let t = initialized(s, admin, guardian)->Ok_0.0;
            &&& t.admin == Some(admin)
            &&& t.guardian == Some(guardian)
            &&& t.config is Some
            &&& t.conf() == (GovernanceState { config: None, ..s }).conf()
            &&& !t.emergency_paused
            &&& t.total_supply == 0
            &&& t.voting_power == s.voting_power
            &&& t.total_voting_power == s.total_voting_power
            &&& t.proposals == s.proposals
            &&& t.votes == s.votes
        }),
{
}

// ---------------------------------------------------------------------------
// Voting power
// ---------------------------------------------------------------------------

/// The power that a holder is stored with.
pub open spec fn stored_power(s: GovernanceState, holder: Address) -> int {
    if s.voting_power.contains_key(holder) {
        s.voting_power[holder] as int
    } else {
        0
    }
}

/// A positive amount that is deposited is added to the holder's power and to
/// the total; one that is withdrawn is taken off both, where the holder has as
/// much. Nobody else's power changes, and the new power is given back.
pub proof fn power_moves_by_the_amount(
    s: GovernanceState,
    holder: Address,
    amount: i128,
    other: Address,
)
    requires
        other != holder,
    ensures
        power_deposited(s, holder, amount) is Ok <==> amount > 0 && fits(
            stored_power(s, holder) + amount,
        ) && fits(s.total_voting_power + amount),
        power_deposited(s, holder, amount) is Ok ==> ({
            let (t, power) = power_deposited(s, holder, amount)->Ok_0;
            &&& power == stored_power(s, holder) + amount
            &&& stored_power(t, holder) == power
            &&& t.total_voting_power == s.total_voting_power + amount
            &&& stored_power(t, other) == stored_power(s, other)
        }),
        power_withdrawn(s, holder, amount) is Ok <==> 0 < amount <= stored_power(s, holder) && fits(
            s.total_voting_power - amount,
        ),
        power_withdrawn(s, holder, amount) is Ok ==> ({
            let (t, power) = power_withdrawn(s, holder, amount)->Ok_0;
            &&& power == stored_power(s, holder) - amount
            &&& stored_power(t, holder) == power
            &&& t.total_voting_power == s.total_voting_power - amount
            &&& stored_power(t, other) == stored_power(s, other)
        }),
{
}

// ---------------------------------------------------------------------------
// Proposals
// ---------------------------------------------------------------------------

/// The proposal is being voted on, has passed or waits in the timelock.
pub open spec fn is_open(s: GovernanceState, id: u64) -> bool {
    s.proposals.contains_key(id) && {
        ||| s.proposals[id].status == ProposalStatus::Voting
        ||| s.proposals[id].status == ProposalStatus::Passed
        ||| s.proposals[id].status == ProposalStatus::Timelock
    }
}

proof fn lemma_active_count(s: GovernanceState, ids: Seq<u64>, n: int)
    requires
        0 <= n <= ids.len(),
    ensures
        active_count(s, ids, n) == ids.take(n).filter(|id: u64| is_open(s, id)).len(),
    decreases n,
{
    reveal(Seq::filter);
    if n > 0 {
        lemma_active_count(s, ids, n - 1);
        assert(ids.take(n).drop_last() =~= ids.take(n - 1));
        assert(ids.take(n).last() == ids[n - 1]);
    }
}

/// Outside a pause, whoever has the configured power submits a proposal, as
/// long as fewer are open than configured. It gets the next number, is voted
/// on at once and for the configured period, and starts without a vote. All
/// other proposals stay as they are.
pub proof fn submitting_opens_a_vote(
    s: GovernanceState,
    proposer: Address,
    title: Symbol,
    description: Symbol,
    action_type: ProposalActionType,
    payload: Symbol,
    c: GovernanceConfig,
)
    requires
        s.config == Some(c),
        s.timestamp + c.voting_period <= u64::MAX,
        s.next_proposal_id < u64::MAX,
    ensures
        ({
            let r = proposed(s, proposer, title, description, action_type, payload);
            let open = s.proposal_ids.filter(|id: u64| is_open(s, id)).len();
            &&& r is Ok <==> {
                &&& !s.emergency_paused
                &&& stored_power(s, proposer) >= c.proposal_threshold
                &&& open < c.max_active_proposals
            }
            &&& r is Ok ==> {
                let (t, id) = r->Ok_0;
                let p = t.proposals[id];
                &&& id == s.next_proposal_id
                &&& t.next_proposal_id == id + 1
                &&& t.proposal_ids == s.proposal_ids.push(id)
                &&& t.proposals == s.proposals.insert(id, p)
                &&& p.proposal_id == id
                &&& p.proposer == proposer
                &&& p.title == title
                &&& p.description == description
                &&& p.action_type == action_type
                &&& p.action_payload == payload
                &&& p.status == ProposalStatus::Voting
                &&& p.votes_for == 0 && p.votes_against == 0 && p.votes_abstain == 0
                &&& p.voter_count == 0
                &&& p.created_at == s.timestamp && p.voting_starts == s.timestamp
                &&& p.voting_ends == s.timestamp + c.voting_period
                &&& p.executed_at == 0
                &&& t.votes == s.votes
                &&& t.voting_power == s.voting_power
            }
        }),
{
    lemma_active_count(s, s.proposal_ids, s.proposal_ids.len() as int);
    assert(s.proposal_ids.take(s.proposal_ids.len() as int) =~= s.proposal_ids);
}

/// The proposer and the administrator cancel a proposal that is voted on, and
/// nobody else does.
pub proof fn cancelling_is_for_proposer_and_administrator(
    s: GovernanceState,
    caller: Address,
    id: u64,
)
    ensures
        proposal_cancelled(s, caller, id) is Ok <==> {
            &&& s.admin is Some
            &&& s.proposals.contains_key(id)
            &&& caller == s.proposals[id].proposer || s.admin == Some(caller)
            &&& s.proposals[id].status == ProposalStatus::Submitted || s.proposals[id].status
                == ProposalStatus::Voting
        },
        proposal_cancelled(s, caller, id) is Ok ==> proposal_cancelled(
            s,
            caller,
            id,
        )->Ok_0.0.proposals == s.proposals.insert(
            id,
            Proposal { status: ProposalStatus::Cancelled, ..s.proposals[id] },
        ),
{
}

// ---------------------------------------------------------------------------
// Votes
// ---------------------------------------------------------------------------

/// The votes of one direction.
pub open spec fn votes_in(p: Proposal, direction: VoteDirection) -> i128 {
    match direction {
        VoteDirection::For => p.votes_for,
        VoteDirection::Against => p.votes_against,
        VoteDirection::Abstain => p.votes_abstain,
    }
}

/// A holder's tokens can be voted with: the proposal is voted on, its period
/// is not over, they were not voted with yet, and there are some.
pub open spec fn can_be_cast(s: GovernanceState, id: u64, holder: Address) -> bool {
    &&& !s.emergency_paused
    &&& s.proposals.contains_key(id)
    &&& s.proposals[id].status == ProposalStatus::Voting
    &&& s.timestamp <= s.proposals[id].voting_ends
    &&& !s.votes.contains_key((id, holder))
    &&& stored_power(s, holder) > 0
}

/// What a counted vote looks like: the votes of its direction grow by the
/// holder's power and no other tally changes, one more voter is counted, and
/// who voted for whom, how and when is on record.
pub open spec fn is_counted(
    s: GovernanceState,
    t: GovernanceState,
    voter: Address,
    holder: Address,
    id: u64,
    direction: VoteDirection,
) -> bool {
    let p = s.proposals[id];
    let q = t.proposals[id];
    &&& t.proposals == s.proposals.insert(id, q)
    &&& forall|d: VoteDirection| #[trigger]
        votes_in(q, d) == votes_in(p, d) + if d == direction {
            stored_power(s, holder)
        } else {
            0
        }
    &&& q.voter_count == p.voter_count + 1
    &&& q == Proposal {
        votes_for: q.votes_for,
        votes_against: q.votes_against,
        votes_abstain: q.votes_abstain,
        voter_count: q.voter_count,
        ..p
    }
    &&& t.votes == s.votes.insert(
        (id, holder),
        VoteRecord {
            proposal_id: id,
            voter,
            token_holder: holder,
            weight: stored_power(s, holder) as i128,
            direction,
            timestamp: s.timestamp,
            is_delegated: voter != holder,
        },
    )
    &&& t.voting_power == s.voting_power
    &&& t.delegations == s.delegations
}

/// The tally of the direction and the number of voters have room for the vote.
pub open spec fn has_room(
    s: GovernanceState,
    id: u64,
    holder: Address,
    direction: VoteDirection,
) -> bool {
    s.proposals.contains_key(id) ==> s.proposals[id].voter_count < u32::MAX && fits(
        votes_in(s.proposals[id], direction) + stored_power(s, holder),
    )
}

/// A holder's vote is taken exactly where it can be cast, and counted for its
/// direction with the power that the holder has.
pub proof fn votes_count_for_their_direction(
    s: GovernanceState,
    voter: Address,
    id: u64,
    direction: VoteDirection,
)
    requires
        has_room(s, id, voter, direction),
    ensures
        voted(s, voter, id, direction) is Ok <==> can_be_cast(s, id, voter),
        voted(s, voter, id, direction) is Ok ==> is_counted(
            s,
            voted(s, voter, id, direction)->Ok_0.0,
            voter,
            voter,
            id,
            direction,
        ),
{
}

/// A delegate's vote is taken exactly where the holder's tokens can be voted
/// with and the holder has an active delegation to that delegate. It is
/// counted with the holder's power, and recorded as the holder's.
pub proof fn delegates_vote_with_the_power_of_holders(
    s: GovernanceState,
    delegate: Address,
    holder: Address,
    id: u64,
    direction: VoteDirection,
)
    requires
        has_room(s, id, holder, direction),
        delegate != holder,
    ensures
        delegate_voted(s, delegate, holder, id, direction) is Ok <==> {
            &&& can_be_cast(s, id, holder)
            &&& s.delegations.contains_key(holder)
            &&& s.delegations[holder].active
            &&& s.delegations[holder].delegate == delegate
        },
        delegate_voted(s, delegate, holder, id, direction) is Ok ==> is_counted(
            s,
            delegate_voted(s, delegate, holder, id, direction)->Ok_0.0,
            delegate,
            holder,
            id,
            direction,
        ),
{
}

/// Anyone delegates to anyone else; the delegation is active, in the place of
/// an earlier one, until it is revoked. Other delegations stay.
pub proof fn delegations_last_until_revoked(
    s: GovernanceState,
    delegator: Address,
    delegate: Address,
)
    ensures
        delegated(s, delegator, delegate) is Ok <==> delegator != delegate,
        delegated(s, delegator, delegate) is Ok ==> delegated(
            s,
            delegator,
            delegate,
        )->Ok_0.0.delegations == s.delegations.insert(
            delegator,
            Delegation { delegator, delegate, created_at: s.timestamp, active: true },
        ),
        revoked(s, delegator) is Ok <==> s.delegations.contains_key(delegator),
        revoked(s, delegator) is Ok ==> revoked(s, delegator)->Ok_0.0.delegations
            == s.delegations.insert(
            delegator,
            Delegation { active: false, ..s.delegations[delegator] },
        ),
{
}

// ---------------------------------------------------------------------------
// Finalizing
// ---------------------------------------------------------------------------

/// The votes of all directions reach the fraction of the supply, in basis
/// points, that a quorum takes; what is left over by the division is forgiven.
pub open spec fn reaches(votes: int, supply: int, bps: int) -> bool {
    if supply >= 0 {
        (votes + 1) * 10_000 > supply * bps
    } else {
        votes * 10_000 >= supply * bps
    }
}

proof fn lemma_reaches(votes: int, supply: int, bps: int)
    requires
        bps >= 0,
    ensures
        votes >= crate::base::arith::quot(supply * bps, 10_000) <==> reaches(votes, supply, bps),
{
    let x = supply * bps;
    lemma_quot_rest(x, 10_000);
    if supply >= 0 {
        assert(x >= 0) by (nonlinear_arith)
            requires
                x == supply * bps,
                supply >= 0,
                bps >= 0,
        ;
    } else {
        assert(x <= 0) by (nonlinear_arith)
            requires
                x == supply * bps,
                supply < 0,
                bps >= 0,
        ;
    }
}

/// Once its voting period is over, a proposal is finalized by the configured
/// thresholds. It passes exactly where all votes together reach the quorum,
/// there are votes for or against, and the votes for are at least the
/// configured fraction of the two; else it is defeated. Nothing of any
/// proposal changes but the status of this one.
pub proof fn the_configured_thresholds_decide(s: GovernanceState, id: u64, c: GovernanceConfig)
    requires
        s.config == Some(c),
        s.proposals.contains_key(id),
    ensures
        ({
            let p = s.proposals[id];
            let net = p.votes_for + p.votes_against;
            let quorum = reaches(
                net + p.votes_abstain,
                s.total_supply as int,
                c.quorum_threshold_bps as int,
            );
            let majority = p.votes_for * 10_000 >= net * c.approval_threshold_bps;
            let r = finalized(s, id);
            &&& r is Ok <==> {
                &&& p.status == ProposalStatus::Voting
                &&& s.timestamp > p.voting_ends
                &&& fits(s.total_supply * c.quorum_threshold_bps)
                &&& quorum && net != 0 ==> fits(net * c.approval_threshold_bps)
            }
            &&& r is Ok ==> {
                let (t, status) = r->Ok_0;
                &&& status == if quorum && net != 0 && majority {
                    ProposalStatus::Passed
                } else {
                    ProposalStatus::Defeated
                }
                &&& t.proposals == s.proposals.insert(id, Proposal { status, ..p })
                &&& t.votes == s.votes
                &&& t.timelocks == s.timelocks
            }
        }),
{
    let p = s.proposals[id];
    lemma_reaches(
        p.votes_for + p.votes_against + p.votes_abstain,
        s.total_supply as int,
        c.quorum_threshold_bps as int,
    );
}

// ---------------------------------------------------------------------------
// The timelock
// ---------------------------------------------------------------------------

/// A passed proposal is queued where its configured delay is not nothing: that
/// of emergencies for an emergency action, else the ordinary one. It is due
/// that long from now.
pub proof fn the_configured_delay_is_waited(s: GovernanceState, id: u64, c: GovernanceConfig)
    requires
        s.config == Some(c),
        s.proposals.contains_key(id),
        s.timestamp + c.timelock_delay <= u64::MAX,
        s.timestamp + c.emergency_timelock_delay <= u64::MAX,
    ensures
        ({
            let p = s.proposals[id];
            let delay = if p.action_type == ProposalActionType::EmergencyAction {
                c.emergency_timelock_delay
            } else {
                c.timelock_delay
            };
            let r = queued(s, id);
            &&& r is Ok <==> p.status == ProposalStatus::Passed && delay > 0
            &&& r is Ok ==> {
                let t = r->Ok_0.0;
                &&& t.proposals == s.proposals.insert(id, t.proposals[id])
                &&& t.proposals[id] == (Proposal {
                    status: ProposalStatus::Timelock,
                    timelock_expiry: (s.timestamp + delay) as u64,
                    ..p
                })
                &&& t.timelocks == s.timelocks.insert(id, t.timelocks[id])
                &&& t.timelocks[id].scheduled_at == s.timestamp
                &&& t.timelocks[id].execute_after == s.timestamp + delay
                &&& t.timelocks[id].status == TimelockStatus::Pending
            }
        }),
{
}

/// A queued proposal is executed exactly where its entry is neither executed
/// nor cancelled and due; both are marked, and its tallies stay.
pub proof fn due_proposals_are_executed(s: GovernanceState, id: u64, executor: Address)
    ensures
        executed(s, id, executor) is Ok <==> {
            &&& s.proposals.contains_key(id)
            &&& s.proposals[id].status == ProposalStatus::Timelock
            &&& s.timelocks.contains_key(id)
            &&& s.timelocks[id].status != TimelockStatus::Executed
            &&& s.timelocks[id].status != TimelockStatus::Cancelled
            &&& s.timestamp >= s.timelocks[id].execute_after
        },
        executed(s, id, executor) is Ok ==> ({
            let t = executed(s, id, executor)->Ok_0.0;
            &&& t.proposals == s.proposals.insert(
                id,
                Proposal {
                    status: ProposalStatus::Executed,
                    executed_at: s.timestamp,
                    ..s.proposals[id]
                },
            )
            &&& t.timelocks[id].status == TimelockStatus::Executed
        }),
{
    if executed(s, id, executor) is Ok {
        let t = executed(s, id, executor)->Ok_0.0;
        assert(t.proposals =~= s.proposals.insert(id, t.proposals[id]));
    }
}

/// The administrator and the guardian pause, and execute at once what is not
/// at its end; the administrator alone lifts a pause.
pub proof fn emergencies_are_for_administrator_and_guardian(
    s: GovernanceState,
    caller: Address,
    id: u64,
)
    requires
        s.admin is Some,
        s.guardian is Some,
    ensures
        ({
            let allowed = s.admin == Some(caller) || s.guardian == Some(caller);
            &&& paused(s, caller) is Ok <==> allowed && !s.emergency_paused
            &&& unpaused(s, caller) is Ok <==> s.admin == Some(caller) && s.emergency_paused
            &&& emergency_executed(s, caller, id) is Ok <==> {
                &&& allowed
                &&& s.proposals.contains_key(id)
                &&& s.proposals[id].status != ProposalStatus::Executed
                &&& s.proposals[id].status != ProposalStatus::Cancelled
                &&& s.proposals[id].status != ProposalStatus::ExecutionFailed
            }
            &&& emergency_executed(s, caller, id) is Ok ==> emergency_executed(
                s,
                caller,
                id,
            )->Ok_0.0.proposals == s.proposals.insert(
                id,
                Proposal {
                    status: ProposalStatus::Executed,
                    executed_at: s.timestamp,
                    ..s.proposals[id]
                },
            )
        }),
{
}

// ---------------------------------------------------------------------------
// Treasury and rewards
// ---------------------------------------------------------------------------

/// What the treasury holds of an asset.
pub open spec fn in_treasury(s: GovernanceState, asset: Symbol) -> int {
    if s.treasury_balances.contains_key(asset) {
        s.treasury_balances[asset] as int
    } else {
        0
    }
}

/// A deposit of a positive amount adds it to its asset, and to no other.
pub proof fn deposits_are_held(
    s: GovernanceState,
    depositor: Address,
    asset: Symbol,
    amount: i128,
    other: Symbol,
)
    requires
        other != asset,
    ensures
        ({
            let r = treasury::deposited(s, depositor, asset, amount);
            &&& r is Ok <==> amount > 0 && fits(in_treasury(s, asset) + amount)
            &&& r is Ok ==> {
                let (t, balance) = r->Ok_0;
                &&& balance == in_treasury(s, asset) + amount
                &&& in_treasury(t, asset) == balance
                &&& in_treasury(t, other) == in_treasury(s, other)
            }
        }),
{
}

/// A request is taken exactly where it asks for something, and for no more
/// than the configured fraction of what the treasury holds of its asset. It
/// waits for approvals under the next number, and nothing is paid yet.
pub proof fn requests_stay_within_the_configured_fraction(
    s: GovernanceState,
    requester: Address,
    recipient: Address,
    amount: i128,
    asset: Symbol,
    reason: Symbol,
    c: GovernanceConfig,
)
    requires
        in_treasury(s, asset) >= 0,
        fits(in_treasury(s, asset) * c.max_treasury_spend_bps),
        s.next_request_id < u64::MAX,
    ensures
        ({
            let r = treasury::requested(s, requester, recipient, amount, asset, reason, c);
            &&& r is Ok <==> amount > 0 && amount * 10_000 <= in_treasury(s, asset)
                * c.max_treasury_spend_bps
            &&& r is Ok ==> {
                let (t, id) = r->Ok_0;
                let q = t.treasury_requests[id];
                &&& id == s.next_request_id
                &&& t.next_request_id == id + 1
                &&& t.treasury_requests == s.treasury_requests.insert(id, q)
                &&& q.request_id == id
                &&& q.recipient == recipient
                &&& q.amount == amount
                &&& q.asset == asset
                &&& q.reason == reason
                &&& q.approvals.len() == 0
                &&& !q.executed
                &&& q.created_at == s.timestamp
                &&& t.treasury_balances == s.treasury_balances
            }
        }),
{
    let x = in_treasury(s, asset) * c.max_treasury_spend_bps;
    assert(x >= 0) by (nonlinear_arith)
        requires
            x == in_treasury(s, asset) * c.max_treasury_spend_bps,
            in_treasury(s, asset) >= 0,
            c.max_treasury_spend_bps >= 0,
    ;
    lemma_quot_rest(x, 10_000);
    lemma_quot_bounds(x, 10_000);
}

/// Signers and the administrator approve an open request, each once; the
/// approval is the last of its list.
pub proof fn signers_approve(s: GovernanceState, signer: Address, id: u64)
    requires
        s.admin is Some,
    ensures
        ({
            let r = treasury::approved(s, signer, id);
            let q = s.treasury_requests[id];
            &&& r is Ok <==> {
                &&& s.treasury_signers.contains(signer) || s.admin == Some(signer)
                &&& s.treasury_requests.contains_key(id)
                &&& !q.executed
                &&& !q.approvals.contains(signer)
            }
            &&& r is Ok ==> {
                let (t, given) = r->Ok_0;
                &&& given.approvals == q.approvals.push(signer)
                &&& given.amount == q.amount && given.recipient == q.recipient
                &&& given.asset == q.asset && !given.executed
                &&& t.treasury_requests == s.treasury_requests.insert(id, given)
                &&& t.treasury_balances == s.treasury_balances
            }
        }),
{
}

/// Outside a pause, an open request is paid exactly where it has as many
/// approvals as configured and the treasury holds as much: its whole amount,
/// which leaves the treasury.
pub proof fn approved_requests_are_paid(s: GovernanceState, id: u64, c: GovernanceConfig)
    requires
        s.config == Some(c),
        s.wf(),
    ensures
        ({
            let r = treasury_executed(s, id);
            let q = s.treasury_requests[id];
            &&& r is Ok <==> {
                &&& !s.emergency_paused
                &&& s.treasury_requests.contains_key(id)
                &&& !q.executed
                &&& q.approvals.len() >= c.treasury_multisig_threshold
                &&& q.amount <= in_treasury(s, q.asset)
            }
            &&& r is Ok ==> {
                let (t, paid) = r->Ok_0;
                &&& paid == q.amount
                &&& in_treasury(t, q.asset) == in_treasury(s, q.asset) - paid
                &&& forall|other: Symbol|
                    other != q.asset ==> #[trigger] in_treasury(t, other) == in_treasury(s, other)
                &&& t.treasury_requests[id].executed
                &&& t.treasury_requests == s.treasury_requests.insert(id, t.treasury_requests[id])
            }
        }),
{
}

/// Whoever has a recorded vote on a proposal claims the configured reward,
/// once, and nobody else does.
pub proof fn voters_claim_the_configured_reward(
    s: GovernanceState,
    voter: Address,
    id: u64,
    c: GovernanceConfig,
)
    requires
        s.config == Some(c),
        fits(s.total_rewards + c.reward_per_participation),
    ensures
        ({
            let r = reward_claimed(s, voter, id);
            let claimed = s.rewards_claimed.contains_key((id, voter))
                && s.rewards_claimed[(id, voter)];
            &&& r is Ok <==> !claimed && s.votes.contains_key((id, voter))
            &&& r is Ok ==> {
                let (t, reward) = r->Ok_0;
                &&& reward == c.reward_per_participation
                &&& t.total_rewards == s.total_rewards + reward
                &&& t.rewards_claimed == s.rewards_claimed.insert((id, voter), true)
            }
        }),
{
}

} // verus!
