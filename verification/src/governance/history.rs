//! What holds of the governance contract after any sequence of calls.

use vstd::prelude::*;

use crate::base::address::Address;
use crate::base::arith::fits;
use crate::base::sums::{lemma_map_sum_insert, map_sum};
use crate::base::symbol::Symbol;
use crate::governance::contract::{
    config_set, delegate_voted, delegated, delegates_to, emergency_executed, executed, finalized,
    initialized, paused, power_deposited, power_withdrawn, proposal_cancelled, proposal_delay,
    proposed, queued, revoked, reward_claimed, sink_set, supply_set, tally_room, treasury_executed,
    unpaused, voted,
};
use crate::governance::laws::{
    delegator_list_stays_active, delegators_are_active, power_adds_up, total_power_is_the_sum,
};
use crate::governance::records::{
    Error, GovernanceConfig, Proposal, ProposalActionType, ProposalStatus, TimelockStatus,
    VoteDirection, VoteRecord,
};
use crate::governance::state::GovernanceState;
use crate::governance::treasury;

verus! {

/// A call that can change the contract, or time passing.
pub enum Call {
    Wait { until: u64 },
    Initialize { admin: Address, guardian: Address },
    SetConfig { admin: Address, config: GovernanceConfig },
    SetTotalSupply { admin: Address, total_supply: i128 },
    Deposit { holder: Address, amount: i128 },
    Withdraw { holder: Address, amount: i128 },
    Submit {
        proposer: Address,
        title: Symbol,
        description: Symbol,
        action_type: ProposalActionType,
        action_payload: Symbol,
    },
    CancelProposal { caller: Address, id: u64 },
    Vote { voter: Address, id: u64, direction: VoteDirection },
    DelegatedVote { delegate: Address, holder: Address, id: u64, direction: VoteDirection },
    Finalize { id: u64 },
    Queue { id: u64 },
    Execute { id: u64, executor: Address },
    Delegate { delegator: Address, delegate: Address },
    Revoke { delegator: Address },
    TreasuryDeposit { depositor: Address, asset: Symbol, amount: i128 },
    CreateRequest {
        requester: Address,
        recipient: Address,
        amount: i128,
        asset: Symbol,
        reason: Symbol,
    },
    ApproveRequest { signer: Address, id: u64 },
    ExecuteRequest { id: u64 },
    AddSigner { admin: Address, signer: Address },
    RemoveSigner { admin: Address, signer: Address },
    Pause { caller: Address },
    Unpause { admin: Address },
    EmergencyExecute { caller: Address, id: u64 },
    ClaimReward { voter: Address, id: u64 },
    SetAuditSink { admin: Address, sink: Address },
}

/// The state after a call, which is the state before it where the call was refused.
pub open spec fn settle<T, E>(s: GovernanceState, r: Result<(GovernanceState, T), E>) -> GovernanceState {
    match r {
        Ok((t, _)) => t,
        Err(_) => s,
    }
}

/// The state after one call.
pub open spec fn step(s: GovernanceState, call: Call) -> GovernanceState {
    match call {
        Call::Wait { until } => GovernanceState { timestamp: until, ..s },
        Call::Initialize { admin, guardian } => settle(s, initialized(s, admin, guardian)),
        Call::SetConfig { admin, config } => settle(s, config_set(s, admin, config)),
        Call::SetTotalSupply { admin, total_supply } => settle(
            s,
            supply_set(s, admin, total_supply),
        ),
        Call::Deposit { holder, amount } => settle(s, power_deposited(s, holder, amount)),
        Call::Withdraw { holder, amount } => settle(s, power_withdrawn(s, holder, amount)),
        Call::Submit { proposer, title, description, action_type, action_payload } => settle(
            s,
            proposed(s, proposer, title, description, action_type, action_payload),
        ),
        Call::CancelProposal { caller, id } => settle(s, proposal_cancelled(s, caller, id)),
        Call::Vote { voter, id, direction } => settle(s, voted(s, voter, id, direction)),
        Call::DelegatedVote { delegate, holder, id, direction } => settle(
            s,
            delegate_voted(s, delegate, holder, id, direction),
        ),
        Call::Finalize { id } => settle(s, finalized(s, id)),
        Call::Queue { id } => settle(s, queued(s, id)),
        Call::Execute { id, executor } => settle(s, executed(s, id, executor)),
        Call::Delegate { delegator, delegate } => settle(s, delegated(s, delegator, delegate)),
        Call::Revoke { delegator } => settle(s, revoked(s, delegator)),
        Call::TreasuryDeposit { depositor, asset, amount } => settle(
            s,
            treasury::deposited(s, depositor, asset, amount),
        ),
        Call::CreateRequest { requester, recipient, amount, asset, reason } => settle(
            s,
            treasury::requested(s, requester, recipient, amount, asset, reason, s.conf()),
        ),
        Call::ApproveRequest { signer, id } => settle(s, treasury::approved(s, signer, id)),
        Call::ExecuteRequest { id } => settle(s, treasury_executed(s, id)),
        Call::AddSigner { admin, signer } => settle(s, treasury::signer_added(s, admin, signer)),
        Call::RemoveSigner { admin, signer } => settle(
            s,
            treasury::signer_removed(s, admin, signer),
        ),
        Call::Pause { caller } => settle(s, paused(s, caller)),
        Call::Unpause { admin } => settle(s, unpaused(s, admin)),
        Call::EmergencyExecute { caller, id } => settle(s, emergency_executed(s, caller, id)),
        Call::ClaimReward { voter, id } => settle(s, reward_claimed(s, voter, id)),
        Call::SetAuditSink { admin, sink } => settle(s, sink_set(s, admin, sink)),
    }
}

/// The numbers that the call computes are within their types.
pub open spec fn within_limits(s: GovernanceState, call: Call) -> bool {
    match call {
        Call::Submit { .. } => s.next_proposal_id < u64::MAX,
        Call::Vote { voter, id, direction } => tally_room(s, id, direction, voter),
        Call::DelegatedVote { holder, id, direction, .. } => tally_room(s, id, direction, holder),
        Call::Queue { id } => s.proposals.contains_key(id) ==> s.timestamp + proposal_delay(
            s,
            s.proposals[id],
        ) <= u64::MAX,
        _ => true,
    }
}

/// The state after a sequence of calls.
pub open spec fn run(s: GovernanceState, calls: Seq<Call>) -> GovernanceState
    decreases calls.len(),
{
    if calls.len() == 0 {
        s
    } else {
        step(run(s, calls.drop_last()), calls.last())
    }
}

/// Every call of the sequence is within the limits when its turn comes.
pub open spec fn all_within_limits(s: GovernanceState, calls: Seq<Call>) -> bool
    decreases calls.len(),
{
    calls.len() > 0 ==> all_within_limits(s, calls.drop_last()) && within_limits(
        run(s, calls.drop_last()),
        calls.last(),
    )
}

// ---------------------------------------------------------------------------
// Tallies
// ---------------------------------------------------------------------------

/// The recorded votes of a proposal in one direction: the weight of each holder.
pub open spec fn ballots(
    votes: Map<(u64, Address), VoteRecord>,
    id: u64,
    direction: VoteDirection,
) -> Map<Address, i128> {
    Map::new(
        |a: Address| votes.contains_key((id, a)) && votes[(id, a)].direction == direction,
        |a: Address| votes[(id, a)].weight,
    )
}

/// The holders whose votes on a proposal are recorded.
pub open spec fn holders(votes: Map<(u64, Address), VoteRecord>, id: u64) -> Set<Address> {
    Set::new(|a: Address| votes.contains_key((id, a)))
}

/// The tally of one direction is the sum of the recorded weights.
pub open spec fn adds_up(
    votes: Map<(u64, Address), VoteRecord>,
    id: u64,
    direction: VoteDirection,
    tally: i128,
) -> bool {
    &&& ballots(votes, id, direction).dom().finite()
    &&& tally == map_sum(ballots(votes, id, direction))
}

/// The tallies of a proposal are the sums of the recorded weights, and its
/// voters are counted once each.
pub open spec fn tally_is_right(
    votes: Map<(u64, Address), VoteRecord>,
    id: u64,
    p: Proposal,
) -> bool {
    &&& adds_up(votes, id, VoteDirection::For, p.votes_for)
    &&& adds_up(votes, id, VoteDirection::Against, p.votes_against)
    &&& adds_up(votes, id, VoteDirection::Abstain, p.votes_abstain)
    &&& holders(votes, id).finite()
    &&& p.voter_count == holders(votes, id).len()
}

/// Every tally is right, votes are recorded on proposals only, and the next
/// number is not given out yet.
pub open spec fn tallies_are_right(s: GovernanceState) -> bool {
    &&& forall|id: u64| #[trigger]
        s.proposals.contains_key(id) ==> id < s.next_proposal_id && tally_is_right(
            s.votes,
            id,
            s.proposals[id],
        )
    &&& forall|id: u64, a: Address| #[trigger]
        s.votes.contains_key((id, a)) ==> s.proposals.contains_key(id)
}

/// The proposal that a call moves on without counting a vote.
spec fn moved_proposal(call: Call) -> Option<u64> {
    match call {
        Call::CancelProposal { id, .. } => Some(id),
        Call::Finalize { id } => Some(id),
        Call::Queue { id } => Some(id),
        Call::Execute { id, .. } => Some(id),
        Call::EmergencyExecute { id, .. } => Some(id),
        _ => None,
    }
}

spec fn leaves_proposals(call: Call) -> bool {
    moved_proposal(call) is None && !(call is Submit) && !(call is Vote) && !(
    call is DelegatedVote)
}

/// Most calls leave proposals, votes and the timelock alone.
proof fn lemma_left_alone(s: GovernanceState, call: Call)
    requires
        leaves_proposals(call),
    ensures
        step(s, call).proposals == s.proposals,
        step(s, call).votes == s.votes,
        step(s, call).next_proposal_id == s.next_proposal_id,
        step(s, call).timelocks == s.timelocks,
{
}

/// What the calls that move one proposal do to it and to the others.
proof fn lemma_moved(s: GovernanceState, call: Call, id: u64)
    requires
        moved_proposal(call) == Some(id),
    ensures
        step(s, call) == s || {
            let t = step(s, call);
            let p = t.proposals[id];
            let q = s.proposals[id];
            &&& s.proposals.contains_key(id)
            &&& t.proposals == s.proposals.insert(id, p)
            &&& t.votes == s.votes
            &&& t.next_proposal_id == s.next_proposal_id
            &&& p.votes_for == q.votes_for
            &&& p.votes_against == q.votes_against
            &&& p.votes_abstain == q.votes_abstain
            &&& p.voter_count == q.voter_count
            &&& t.timelocks == s.timelocks || t.timelocks == s.timelocks.insert(
                id,
                t.timelocks[id],
            )
            &&& p.status == ProposalStatus::Timelock ==> q.status == ProposalStatus::Passed
                && is_waiting(t, id)
        },
{
    let t = step(s, call);
    match call {
        Call::CancelProposal { caller, .. } => {
            assert(t.proposals =~= s.proposals || t.proposals =~= s.proposals.insert(
                id,
                t.proposals[id],
            ));
        },
        Call::Finalize { .. } => {
            assert(t.proposals =~= s.proposals || t.proposals =~= s.proposals.insert(
                id,
                t.proposals[id],
            ));
        },
        Call::Queue { .. } => {
            assert(t.proposals =~= s.proposals || t.proposals =~= s.proposals.insert(
                id,
                t.proposals[id],
            ));
        },
        Call::Execute { .. } => {
            assert(t.timelocks =~= s.timelocks || t.timelocks =~= s.timelocks.insert(
                id,
                t.timelocks[id],
            ));
        },
        Call::EmergencyExecute { .. } => {},
        _ => {},
    }
}

/// The proposals keep their tallies.
spec fn same_tallies(s: GovernanceState, t: GovernanceState) -> bool {
    &&& t.votes == s.votes
    &&& t.next_proposal_id == s.next_proposal_id
    &&& t.proposals.dom() == s.proposals.dom()
    &&& forall|id: u64| #[trigger]
        s.proposals.contains_key(id) ==> {
            &&& t.proposals[id].votes_for == s.proposals[id].votes_for
            &&& t.proposals[id].votes_against == s.proposals[id].votes_against
            &&& t.proposals[id].votes_abstain == s.proposals[id].votes_abstain
            &&& t.proposals[id].voter_count == s.proposals[id].voter_count
        }
}

proof fn lemma_same_tallies(s: GovernanceState, t: GovernanceState)
    requires
        tallies_are_right(s),
        same_tallies(s, t),
    ensures
        tallies_are_right(t),
{
    assert forall|id: u64| #[trigger] t.proposals.contains_key(id) implies id < t.next_proposal_id
        && tally_is_right(t.votes, id, t.proposals[id]) by {
        assert(s.proposals.dom().contains(id));
        assert(s.proposals.contains_key(id));
    }
    assert forall|id: u64, a: Address| #[trigger] t.votes.contains_key((id, a)) implies
        t.proposals.contains_key(id) by {
        assert(s.proposals.contains_key(id));
        assert(t.proposals.dom().contains(id));
    }
}

/// One more ballot in a direction.
proof fn lemma_ballot(
    votes: Map<(u64, Address), VoteRecord>,
    id: u64,
    holder: Address,
    record: VoteRecord,
    other: u64,
    direction: VoteDirection,
    tally: i128,
)
    requires
        !votes.contains_key((id, holder)),
        adds_up(votes, other, direction, tally),
    ensures
        ({
            let after = votes.insert((id, holder), record);
            if other == id && direction == record.direction {
                fits(tally + record.weight) ==> adds_up(
                    after,
                    other,
                    direction,
                    (tally + record.weight) as i128,
                )
            } else {
                adds_up(after, other, direction, tally)
            }
        }),
{
    let after = votes.insert((id, holder), record);
    let old_ballots = ballots(votes, other, direction);
    if other == id && direction == record.direction {
        assert(ballots(after, other, direction) =~= old_ballots.insert(holder, record.weight));
        lemma_map_sum_insert(old_ballots, holder, record.weight);
    } else {
        assert(ballots(after, other, direction) =~= old_ballots);
    }
}

/// A vote is recorded and counted once.
proof fn lemma_counted(
    s: GovernanceState,
    t: GovernanceState,
    voter: Address,
    holder: Address,
    id: u64,
    direction: VoteDirection,
)
    requires
        tallies_are_right(s),
        tally_room(s, id, direction, holder),
        voted(s, holder, id, direction) is Ok && voter == holder && t == voted(
            s,
            holder,
            id,
            direction,
        )->Ok_0.0 || delegate_voted(s, voter, holder, id, direction) is Ok && t == delegate_voted(
            s,
            voter,
            holder,
            id,
            direction,
        )->Ok_0.0,
    ensures
        tallies_are_right(t),
{
    let record = t.votes[(id, holder)];
    assert(t.votes == s.votes.insert((id, holder), record));
    assert(record.direction == direction);
    assert forall|k: u64| #[trigger] t.proposals.contains_key(k) implies k < t.next_proposal_id
        && tally_is_right(t.votes, k, t.proposals[k]) by {
        assert(s.proposals.contains_key(k));
        let p = s.proposals[k];
        lemma_ballot(s.votes, id, holder, record, k, VoteDirection::For, p.votes_for);
        lemma_ballot(s.votes, id, holder, record, k, VoteDirection::Against, p.votes_against);
        lemma_ballot(s.votes, id, holder, record, k, VoteDirection::Abstain, p.votes_abstain);
        if k == id {
            assert(holders(t.votes, k) =~= holders(s.votes, k).insert(holder));
        } else {
            assert(holders(t.votes, k) =~= holders(s.votes, k));
        }
    }
    assert forall|k: u64, a: Address| #[trigger] t.votes.contains_key((k, a)) implies
        t.proposals.contains_key(k) by {
        if (k, a) != (id, holder) {
            assert(s.votes.contains_key((k, a)));
        }
        assert(s.proposals.contains_key(k));
    }
}

proof fn lemma_submitted(s: GovernanceState, t: GovernanceState, call: Call)
    requires
        tallies_are_right(s),
        call is Submit,
        within_limits(s, call),
        t == step(s, call),
    ensures
        tallies_are_right(t),
{
    if t != s {
        let id = s.next_proposal_id;
        assert(!s.proposals.contains_key(id));
        assert forall|k: u64| #[trigger] t.proposals.contains_key(k) implies k < t.next_proposal_id
            && tally_is_right(t.votes, k, t.proposals[k]) by {
            if k == id {
                assert forall|a: Address| !s.votes.contains_key((id, a)) by {}
                assert(holders(t.votes, k) =~= Set::empty());
                assert(ballots(t.votes, k, VoteDirection::For) =~= Map::empty());
                assert(ballots(t.votes, k, VoteDirection::Against) =~= Map::empty());
                assert(ballots(t.votes, k, VoteDirection::Abstain) =~= Map::empty());
            } else {
                assert(s.proposals.contains_key(k));
            }
        }
        assert forall|k: u64, a: Address| #[trigger] t.votes.contains_key((k, a)) implies
            t.proposals.contains_key(k) by {
            assert(s.votes.contains_key((k, a)));
            assert(s.proposals.contains_key(k));
        }
    }
}

/// Every call keeps the tallies of all proposals equal to the recorded votes:
/// each holder is counted once per proposal, with the weight of the record.
pub proof fn tallies_are_the_recorded_votes(s: GovernanceState, call: Call)
    requires
        tallies_are_right(s),
        within_limits(s, call),
    ensures
        tallies_are_right(step(s, call)),
{
    let t = step(s, call);
    match call {
        Call::Submit { .. } => {
            lemma_submitted(s, t, call);
        },
        Call::Vote { voter, id, direction } => {
            if voted(s, voter, id, direction) is Ok {
                lemma_counted(s, t, voter, voter, id, direction);
            }
        },
        Call::DelegatedVote { delegate, holder, id, direction } => {
            if delegate_voted(s, delegate, holder, id, direction) is Ok {
                lemma_counted(s, t, delegate, holder, id, direction);
            }
        },
        _ => {
            match moved_proposal(call) {
                Some(id) => lemma_moved(s, call, id),
                None => lemma_left_alone(s, call),
            }
            assert(t.proposals.dom() =~= s.proposals.dom());
            lemma_same_tallies(s, t);
        },
    }
}

/// A recorded vote stays as it was recorded.
pub proof fn recorded_votes_stay(s: GovernanceState, call: Call, id: u64, holder: Address)
    requires
        s.votes.contains_key((id, holder)),
    ensures
        step(s, call).votes.contains_key((id, holder)),
        step(s, call).votes[(id, holder)] == s.votes[(id, holder)],
{
}

/// While voting is open, a holder with a recorded vote cannot vote again,
/// neither in person nor through a delegate.
pub proof fn recorded_holders_cannot_vote_again(
    s: GovernanceState,
    id: u64,
    holder: Address,
    delegate: Address,
    direction: VoteDirection,
)
    requires
        s.votes.contains_key((id, holder)),
        s.proposals.contains_key(id),
        s.proposals[id].status == ProposalStatus::Voting,
        s.timestamp <= s.proposals[id].voting_ends,
        !s.emergency_paused,
    ensures
        voted(s, holder, id, direction) == Err::<(GovernanceState, Symbol), Error>(
            Error::AlreadyVoted,
        ),
        delegates_to(s, holder, delegate) ==> delegate_voted(s, delegate, holder, id, direction)
            == Err::<(GovernanceState, Symbol), Error>(Error::AlreadyVoted),
        step(s, Call::Vote { voter: holder, id, direction }) == s,
        step(s, Call::DelegatedVote { delegate, holder, id, direction }) == s,
{
}

// ---------------------------------------------------------------------------
// The timelock
// ---------------------------------------------------------------------------

/// The queued proposal has a pending timelock entry that is due when the
/// proposal says.
pub open spec fn is_waiting(s: GovernanceState, id: u64) -> bool {
    &&& s.timelocks.contains_key(id)
    &&& s.timelocks[id].status == TimelockStatus::Pending
    &&& s.timelocks[id].execute_after == s.proposals[id].timelock_expiry
}

/// Every proposal in the timelock has its pending entry.
pub open spec fn queue_is_pending(s: GovernanceState) -> bool {
    forall|id: u64| #[trigger]
        s.proposals.contains_key(id) && s.proposals[id].status == ProposalStatus::Timelock
            ==> is_waiting(s, id)
}

/// Submitting and voting touch one proposal, which is not in the timelock afterwards.
proof fn lemma_others_stay(s: GovernanceState, call: Call, id: u64)
    requires
        call is Submit && id == s.next_proposal_id || (call matches Call::Vote { id: k, .. } && k
            == id) || (call matches Call::DelegatedVote { id: k, .. } && k == id),
    ensures
        step(s, call) == s || {
            let t = step(s, call);
            &&& t.proposals == s.proposals.insert(id, t.proposals[id])
            &&& t.timelocks == s.timelocks
            &&& t.proposals[id].status == ProposalStatus::Voting
            &&& call is Submit || s.proposals[id].status == ProposalStatus::Voting
        },
{
    let t = step(s, call);
    assert(t.proposals =~= s.proposals || t.proposals =~= s.proposals.insert(id, t.proposals[id]));
}

/// Every call keeps a pending entry for each proposal in the timelock, and
/// a proposal that stays there keeps its expiry.
pub proof fn queued_proposals_are_pending(s: GovernanceState, call: Call, id: u64)
    requires
        queue_is_pending(s),
        within_limits(s, call),
        tallies_are_right(s),
    ensures
        queue_is_pending(step(s, call)),
        s.proposals.contains_key(id) && s.proposals[id].status == ProposalStatus::Timelock
            && step(s, call).proposals[id].status == ProposalStatus::Timelock ==> step(
            s,
            call,
        ).proposals[id].timelock_expiry == s.proposals[id].timelock_expiry,
{
    let t = step(s, call);
    match call {
        Call::Submit { .. } => {
            lemma_others_stay(s, call, s.next_proposal_id);
            assert(!s.proposals.contains_key(s.next_proposal_id));
        },
        Call::Vote { id: k, .. } => {
            lemma_others_stay(s, call, k);
        },
        Call::DelegatedVote { id: k, .. } => {
            lemma_others_stay(s, call, k);
        },
        _ => {
            match moved_proposal(call) {
                Some(k) => lemma_moved(s, call, k),
                None => lemma_left_alone(s, call),
            }
        },
    }
    assert forall|k: u64| #[trigger]
        t.proposals.contains_key(k) && t.proposals[k].status
            == ProposalStatus::Timelock implies is_waiting(t, k) by {
        assert(s.proposals.contains_key(k) ==> s.proposals.contains_key(k));
    }
}

/// Queueing at a time makes a proposal due when the delay of its kind, as
/// configured then, has passed.
pub proof fn queueing_sets_the_expiry(s: GovernanceState, id: u64)
    requires
        queued(s, id) is Ok,
        s.timestamp + proposal_delay(s, s.proposals[id]) <= u64::MAX,
    ensures
        ({
            let t = queued(s, id)->Ok_0.0;
            &&& t.proposals[id].status == ProposalStatus::Timelock
            &&& t.proposals[id].timelock_expiry == s.timestamp + proposal_delay(
                s,
                s.proposals[id],
            )
            &&& is_waiting(t, id)
            &&& t.timelocks[id].scheduled_at == s.timestamp
        }),
{
}

/// A proposal in the timelock is refused before its expiry, with nothing
/// changed, and executed from then on: once, and with its tallies kept.
pub proof fn waiting_proposals_are_executed_once(s: GovernanceState, id: u64, executor: Address)
    requires
        queue_is_pending(s),
        s.proposals.contains_key(id),
        s.proposals[id].status == ProposalStatus::Timelock,
    ensures
        s.timestamp < s.proposals[id].timelock_expiry ==> executed(s, id, executor) == Err::<
            (GovernanceState, Symbol),
            Error,
        >(Error::TimelockNotExpired),
        s.timestamp >= s.proposals[id].timelock_expiry ==> {
            &&& executed(s, id, executor) is Ok
            &&& ({
                let t = executed(s, id, executor)->Ok_0.0;
                &&& t.proposals[id] == (Proposal {
                    status: ProposalStatus::Executed,
                    executed_at: s.timestamp,
                    ..s.proposals[id]
                })
                &&& executed(t, id, executor) == Err::<(GovernanceState, Symbol), Error>(
                    Error::CannotExecute,
                )
            })
        },
{
    assert(is_waiting(s, id));
}

/// How far a proposal has come; it never goes back.
spec fn stage(status: ProposalStatus) -> int {
    match status {
        ProposalStatus::Submitted => 0,
        ProposalStatus::Voting => 1,
        ProposalStatus::Passed => 2,
        ProposalStatus::Timelock => 3,
        _ => 4,
    }
}

proof fn lemma_stage(s: GovernanceState, call: Call, id: u64)
    requires
        tallies_are_right(s),
        s.proposals.contains_key(id),
    ensures
        step(s, call).proposals.contains_key(id),
        stage(step(s, call).proposals[id].status) >= stage(s.proposals[id].status),
{
    match call {
        Call::Submit { .. } => {
            lemma_others_stay(s, call, s.next_proposal_id);
        },
        Call::Vote { id: k, .. } => {
            lemma_others_stay(s, call, k);
        },
        Call::DelegatedVote { id: k, .. } => {
            lemma_others_stay(s, call, k);
        },
        _ => {
            match moved_proposal(call) {
                Some(k) => lemma_moved(s, call, k),
                None => lemma_left_alone(s, call),
            }
        },
    }
}

/// A proposal that is in the timelock before and after a sequence of calls was
/// there all the while, with one expiry.
proof fn lemma_expiry_stays(s: GovernanceState, calls: Seq<Call>, id: u64)
    requires
        tallies_are_right(s),
        queue_is_pending(s),
        all_within_limits(s, calls),
        s.proposals.contains_key(id),
        s.proposals[id].status == ProposalStatus::Timelock,
    ensures
        tallies_are_right(run(s, calls)),
        queue_is_pending(run(s, calls)),
        run(s, calls).proposals.contains_key(id),
        stage(run(s, calls).proposals[id].status) >= 3,
        run(s, calls).proposals[id].status == ProposalStatus::Timelock ==> run(
            s,
            calls,
        ).proposals[id].timelock_expiry == s.proposals[id].timelock_expiry,
    decreases calls.len(),
{
    if calls.len() > 0 {
        lemma_expiry_stays(s, calls.drop_last(), id);
        let before = run(s, calls.drop_last());
        tallies_are_the_recorded_votes(before, calls.last());
        queued_proposals_are_pending(before, calls.last(), id);
        lemma_stage(before, calls.last(), id);
    }
}

/// A proposal that was queued, and is in the timelock still after any calls,
/// is refused until the delay of its kind, as configured when it was queued,
/// has passed; from then on it is executed, once.
pub proof fn queued_proposals_wait_out_their_delay(
    s: GovernanceState,
    id: u64,
    calls: Seq<Call>,
    executor: Address,
)
    requires
        tallies_are_right(s),
        queue_is_pending(s),
        queued(s, id) is Ok,
        within_limits(s, Call::Queue { id }),
        all_within_limits(step(s, Call::Queue { id }), calls),
        run(step(s, Call::Queue { id }), calls).proposals[id].status == ProposalStatus::Timelock,
    ensures
        ({
            let due = s.timestamp + proposal_delay(s, s.proposals[id]);
            let t = run(step(s, Call::Queue { id }), calls);
            let refused = Err::<(GovernanceState, Symbol), Error>(Error::TimelockNotExpired);
            let u = step(t, Call::Execute { id, executor });
            &&& executed(t, id, executor) == refused <==> t.timestamp < due
            &&& t.timestamp < due ==> u == t
            &&& t.timestamp >= due ==> {
                &&& executed(t, id, executor) is Ok
                &&& u.proposals[id] == (Proposal {
                    status: ProposalStatus::Executed,
                    executed_at: t.timestamp,
                    ..t.proposals[id]
                })
                &&& executed(u, id, executor) == Err::<(GovernanceState, Symbol), Error>(
                    Error::CannotExecute,
                )
            }
        }),
{
    let queue = Call::Queue { id };
    let q = step(s, queue);
    tallies_are_the_recorded_votes(s, queue);
    queued_proposals_are_pending(s, queue, id);
    queueing_sets_the_expiry(s, id);
    lemma_expiry_stays(q, calls, id);
    waiting_proposals_are_executed_once(run(q, calls), id, executor);
}

// ---------------------------------------------------------------------------
// Pause
// ---------------------------------------------------------------------------

/// A pause lasts until it is lifted, and meanwhile no call adds a proposal.
pub proof fn a_pause_lasts_until_it_is_lifted(s: GovernanceState, call: Call)
    requires
        s.emergency_paused,
        s.admin is Some,
    ensures
        step(s, call).admin is Some,
        !(call is Unpause) ==> step(s, call).emergency_paused,
        step(s, call).proposal_ids == s.proposal_ids,
        call is Submit || call is Vote || call is DelegatedVote ==> step(s, call) == s,
{
}

/// No call of the sequence lifts a pause.
pub open spec fn none_unpauses(calls: Seq<Call>) -> bool {
    forall|i: int| 0 <= i < calls.len() ==> !(#[trigger] calls[i] is Unpause)
}

/// After a pause, whatever is called but the lifting of it, no proposal is
/// added, and none can be submitted.
pub proof fn a_paused_system_takes_no_proposals(
    s: GovernanceState,
    caller: Address,
    calls: Seq<Call>,
    proposer: Address,
    title: Symbol,
    description: Symbol,
    action_type: ProposalActionType,
    action_payload: Symbol,
)
    requires
        s.admin is Some,
        paused(s, caller) is Ok,
        none_unpauses(calls),
    ensures
        ({
            let t = run(paused(s, caller)->Ok_0.0, calls);
            &&& t.emergency_paused
            &&& t.admin is Some
            &&& t.proposal_ids == s.proposal_ids
            &&& proposed(t, proposer, title, description, action_type, action_payload) is Err
        }),
    decreases calls.len(),
{
    if calls.len() > 0 {
        let earlier = calls.drop_last();
        assert forall|i: int| 0 <= i < earlier.len() implies !(#[trigger] earlier[i] is Unpause) by {
            assert(!(calls[i] is Unpause));
        }
        a_paused_system_takes_no_proposals(
            s,
            caller,
            earlier,
            proposer,
            title,
            description,
            action_type,
            action_payload,
        );
        assert(!(calls[calls.len() - 1] is Unpause));
        a_pause_lasts_until_it_is_lifted(run(paused(s, caller)->Ok_0.0, earlier), calls.last());
    }
}

// ---------------------------------------------------------------------------
// Histories
// ---------------------------------------------------------------------------

/// What every call keeps: the total of the voting power is the sum over the
/// holders, the tallies are the recorded votes, proposals in the timelock are
/// pending, and the delegators of the list are those with an active delegation.
pub open spec fn is_sound(s: GovernanceState) -> bool {
    &&& power_adds_up(s)
    &&& tallies_are_right(s)
    &&& queue_is_pending(s)
    &&& delegators_are_active(s)
}

/// One call keeps a state sound.
pub proof fn calls_keep_the_state_sound(s: GovernanceState, call: Call)
    requires
        is_sound(s),
        within_limits(s, call),
    ensures
        is_sound(step(s, call)),
{
    tallies_are_the_recorded_votes(s, call);
    queued_proposals_are_pending(s, call, 0);
    let t = step(s, call);
    match call {
        Call::Deposit { holder, amount } => {
            total_power_is_the_sum(s, holder, amount, holder, holder);
        },
        Call::Withdraw { holder, amount } => {
            total_power_is_the_sum(s, holder, amount, holder, holder);
        },
        _ => {
            assert(t.voting_power == s.voting_power);
        },
    }
    match call {
        Call::Delegate { delegator, delegate } => {
            delegator_list_stays_active(s, delegator, delegate);
        },
        Call::Revoke { delegator } => {
            delegator_list_stays_active(s, delegator, delegator);
        },
        _ => {
            assert(t.delegators == s.delegators && t.delegations == s.delegations);
        },
    }
}

/// The state of a contract is sound after any sequence of calls.
pub proof fn every_history_is_sound(timestamp: u64, calls: Seq<Call>)
    requires
        all_within_limits(GovernanceState::fresh(timestamp), calls),
    ensures
        is_sound(run(GovernanceState::fresh(timestamp), calls)),
    decreases calls.len(),
{
    let fresh = GovernanceState::fresh(timestamp);
    if calls.len() == 0 {
        assert(fresh.delegators =~= Seq::empty());
    } else {
        every_history_is_sound(timestamp, calls.drop_last());
        calls_keep_the_state_sound(run(fresh, calls.drop_last()), calls.last());
    }
}

} // verus!
