//! Laws of the governance contract.

use vstd::prelude::*;

use crate::base::address::Address;
use crate::base::sums::{lemma_map_sum_insert, lemma_map_sum_part, lemma_map_sum_remove, map_sum};
use crate::base::symbol::Symbol;
use crate::base::table::value_or;
use crate::base::vecs::capped_lists_stay_capped;
use crate::governance::contract::{
    delegate_voted, delegated, delegates_to, emergency_executed, executed, finalized, initialized,
    is_approved, paused, power_deposited, power_of, power_withdrawn, proposal_cancelled,
    proposal_delay, proposed, queued, quorum_of, revoked, reward_claimed, tally_room, total_votes,
    treasury_executed, unpaused, voted,
};
use crate::governance::records::{
    Error, ProposalActionType, ProposalStatus, TreasuryError, VoteDirection,
};
use crate::governance::state::{GovernanceState, MAX_AUDIT_TRAIL};
use crate::governance::timelock;
use crate::governance::treasury::{
    address_index, approved, request_cancelled, with_member,
};

verus! {

// ---------------------------------------------------------------------------
// Voting power
// ---------------------------------------------------------------------------

/// The total voting power is the sum of what the holders have deposited, and
/// whoever is listed as a holder has some.
pub open spec fn power_adds_up(s: GovernanceState) -> bool {
    &&& s.voting_power.dom().finite()
    &&& s.total_voting_power == map_sum(s.voting_power)
    &&& forall|a: Address| #[trigger] s.voting_power.contains_key(a) ==> s.voting_power[a] > 0
}

/// Depositing, withdrawing and initializing keep the total equal to the sum
/// over holders, and every holder's power above zero.
pub proof fn total_power_is_the_sum(
    s: GovernanceState,
    holder: Address,
    amount: i128,
    admin: Address,
    guardian: Address,
)
    requires
        power_adds_up(s),
    ensures
        power_deposited(s, holder, amount) is Ok ==> power_adds_up(
            power_deposited(s, holder, amount)->Ok_0.0,
        ),
        power_withdrawn(s, holder, amount) is Ok ==> power_adds_up(
            power_withdrawn(s, holder, amount)->Ok_0.0,
        ),
        initialized(s, admin, guardian) is Ok ==> power_adds_up(
            initialized(s, admin, guardian)->Ok_0.0,
        ),
{
    if power_deposited(s, holder, amount) is Ok {
        lemma_map_sum_insert(
            s.voting_power,
            holder,
            (power_of(s, holder) + amount) as i128,
        );
    }
    if power_withdrawn(s, holder, amount) is Ok {
        lemma_map_sum_insert(
            s.voting_power,
            holder,
            (power_of(s, holder) - amount) as i128,
        );
        lemma_map_sum_remove(s.voting_power, holder);
    }
}

/// Nobody has negative voting power or more than the total, and whatever a
/// holder has can be withdrawn, all or part of it.
pub proof fn power_can_be_withdrawn(s: GovernanceState, holder: Address, amount: i128)
    requires
        power_adds_up(s),
    ensures
        0 <= power_of(s, holder) <= s.total_voting_power,
        0 < amount <= power_of(s, holder) ==> {
            &&& power_withdrawn(s, holder, amount) is Ok
            &&& power_withdrawn(s, holder, amount)->Ok_0.1 == power_of(s, holder) - amount
            &&& power_withdrawn(s, holder, amount)->Ok_0.0.total_voting_power
                == s.total_voting_power - amount
        },
{
    lemma_map_sum_part(s.voting_power, holder);
}

/// Withdrawing what was just deposited gives every holder the power of before.
pub proof fn withdrawing_undoes_depositing(
    s: GovernanceState,
    holder: Address,
    amount: i128,
    other: Address,
)
    requires
        power_deposited(s, holder, amount) is Ok,
        power_of(s, holder) >= 0,
    ensures
        ({
            let t = power_deposited(s, holder, amount)->Ok_0.0;
            &&& power_withdrawn(t, holder, amount) is Ok
            &&& power_of(power_withdrawn(t, holder, amount)->Ok_0.0, other) == power_of(s, other)
            &&& power_withdrawn(t, holder, amount)->Ok_0.0.total_voting_power
                == s.total_voting_power
        }),
{
}

// ---------------------------------------------------------------------------
// Voting
// ---------------------------------------------------------------------------

/// A holder's tokens count once per proposal: after a vote, neither the
/// holder nor a delegate can vote with them again.
pub proof fn tokens_vote_once(
    s: GovernanceState,
    voter: Address,
    delegate: Address,
    id: u64,
    direction: VoteDirection,
    again: VoteDirection,
)
    ensures
        voted(s, voter, id, direction) is Ok ==> {
            let t = voted(s, voter, id, direction)->Ok_0.0;
            &&& voted(t, voter, id, again) == Err::<(GovernanceState, Symbol), Error>(
                Error::AlreadyVoted,
            )
            &&& delegate_voted(t, delegate, voter, id, again) is Err
        },
        delegate_voted(s, delegate, voter, id, direction) is Ok ==> {
            let t = delegate_voted(s, delegate, voter, id, direction)->Ok_0.0;
            &&& voted(t, voter, id, again) == Err::<(GovernanceState, Symbol), Error>(
                Error::AlreadyVoted,
            )
            &&& delegate_voted(t, delegate, voter, id, again) == Err::<
                (GovernanceState, Symbol),
                Error,
            >(Error::AlreadyVoted)
        },
{
}

/// A vote adds exactly the holder's voting power to the votes of its
/// proposal, one voter to the count, and leaves every other proposal alone.
pub proof fn a_vote_weighs_the_power(
    s: GovernanceState,
    voter: Address,
    id: u64,
    direction: VoteDirection,
    other: u64,
)
    requires
        tally_room(s, id, direction, voter),
        voted(s, voter, id, direction) is Ok,
        other != id,
    ensures
        ({
            let t = voted(s, voter, id, direction)->Ok_0.0;
            &&& total_votes(t.proposals[id]) == total_votes(s.proposals[id]) + power_of(s, voter)
            &&& t.proposals[id].voter_count == s.proposals[id].voter_count + 1
            &&& t.proposals[id].status == s.proposals[id].status
            &&& t.votes[(id, voter)].weight == power_of(s, voter)
            &&& t.proposals.contains_key(other) == s.proposals.contains_key(other)
            &&& t.proposals[other] == s.proposals[other]
        }),
{
}

/// A delegate votes with the holder's power, and only while the holder's
/// delegation to that delegate is active.
pub proof fn delegates_need_a_delegation(
    s: GovernanceState,
    delegate: Address,
    holder: Address,
    id: u64,
    direction: VoteDirection,
)
    requires
        tally_room(s, id, direction, holder),
        delegate_voted(s, delegate, holder, id, direction) is Ok,
    ensures
        delegates_to(s, holder, delegate),
        total_votes(delegate_voted(s, delegate, holder, id, direction)->Ok_0.0.proposals[id])
            == total_votes(s.proposals[id]) + power_of(s, holder),
{
}

/// A revoked delegation no longer lets the delegate vote.
pub proof fn revoked_delegates_cannot_vote(
    s: GovernanceState,
    holder: Address,
    delegate: Address,
    id: u64,
    direction: VoteDirection,
)
    requires
        revoked(s, holder) is Ok,
    ensures
        delegate_voted(revoked(s, holder)->Ok_0.0, delegate, holder, id, direction) is Err,
{
}

/// The delegators of the list are those with an active delegation, each once.
pub open spec fn delegators_are_active(s: GovernanceState) -> bool {
    &&& s.delegators.no_duplicates()
    &&& forall|a: Address|
        s.delegators.contains(a) <==> (#[trigger] s.delegations.contains_key(a)
            && s.delegations[a].active)
}

proof fn lemma_index_of_member(s: Seq<Address>, a: Address)
    requires
        s.contains(a),
    ensures
        0 <= address_index(s, a) < s.len(),
        s[address_index(s, a)] == a,
    decreases s.len(),
{
    if s[0] != a {
        let i = choose|i: int| 0 <= i < s.len() && s[i] == a;
        assert(s.skip(1)[i - 1] == a);
        lemma_index_of_member(s.skip(1), a);
    }
}

proof fn lemma_with_member(s: Seq<Address>, x: Address, a: Address)
    requires
        s.no_duplicates(),
    ensures
        with_member(s, x).contains(a) <==> s.contains(a) || a == x,
        with_member(s, x).no_duplicates(),
{
    let t = with_member(s, x);
    if !s.contains(x) {
        assert(t[s.len() as int] == x);
        if s.contains(a) {
            let i = choose|i: int| 0 <= i < s.len() && s[i] == a;
            assert(t[i] == a);
        }
        if t.contains(a) && a != x {
            let i = choose|i: int| 0 <= i < t.len() && t[i] == a;
            assert(s[i] == a);
        }
    }
}

/// Delegating and revoking keep the list of delegators equal to the active delegations.
pub proof fn delegator_list_stays_active(s: GovernanceState, who: Address, delegate: Address)
    requires
        delegators_are_active(s),
    ensures
        delegated(s, who, delegate) is Ok ==> delegators_are_active(
            delegated(s, who, delegate)->Ok_0.0,
        ),
        revoked(s, who) is Ok ==> delegators_are_active(revoked(s, who)->Ok_0.0),
{
    if delegated(s, who, delegate) is Ok {
        let t = delegated(s, who, delegate)->Ok_0.0;
        assert forall|a: Address|
            t.delegators.contains(a) <==> (#[trigger] t.delegations.contains_key(a)
                && t.delegations[a].active) by {
            assert(s.delegations.contains_key(a) == s.delegations.contains_key(a));
            lemma_with_member(s.delegators, who, a);
        }
        lemma_with_member(s.delegators, who, who);
    }
    if revoked(s, who) is Ok {
        let t = revoked(s, who)->Ok_0.0;
        if s.delegators.contains(who) {
            lemma_index_of_member(s.delegators, who);
            let n = address_index(s.delegators, who);
            assert forall|i: int, j: int|
                0 <= i < t.delegators.len() && 0 <= j < t.delegators.len() && i
                    != j implies t.delegators[i] != t.delegators[j] by {
                let i2: int = if i < n {
                    i
                } else {
                    i + 1
                };
                let j2: int = if j < n {
                    j
                } else {
                    j + 1
                };
                assert(t.delegators[i] == s.delegators[i2]);
                assert(t.delegators[j] == s.delegators[j2]);
            }
            assert forall|a: Address|
                t.delegators.contains(a) <==> (#[trigger] t.delegations.contains_key(a)
                    && t.delegations[a].active) by {
                assert(s.delegations.contains_key(a) == s.delegations.contains_key(a));
                if t.delegators.contains(a) {
                    let i = choose|i: int| 0 <= i < t.delegators.len() && t.delegators[i] == a;
                    let i2: int = if i < n {
                        i
                    } else {
                        i + 1
                    };
                    assert(t.delegators[i] == s.delegators[i2]);
                    assert(s.delegators[n] == who && i2 != n);
                    assert(a != who);
                    assert(s.delegators.contains(a));
                }
                if s.delegators.contains(a) && a != who {
                    let i = choose|i: int| 0 <= i < s.delegators.len() && s.delegators[i] == a;
                    let i2: int = if i < n {
                        i
                    } else {
                        i - 1
                    };
                    assert(t.delegators[i2] == a);
                }
            }
        } else {
            assert forall|a: Address|
                t.delegators.contains(a) <==> (#[trigger] t.delegations.contains_key(a)
                    && t.delegations[a].active) by {
                assert(s.delegations.contains_key(a) == s.delegations.contains_key(a));
            }
        }
    }
}

// ---------------------------------------------------------------------------
// Life cycle of a proposal
// ---------------------------------------------------------------------------

/// The proposal has come to its end.
pub open spec fn is_settled(s: GovernanceState, id: u64) -> bool {
    s.proposals.contains_key(id) && (s.proposals[id].status == ProposalStatus::Executed
        || s.proposals[id].status == ProposalStatus::Cancelled)
}

/// An executed or cancelled proposal is never voted on, finalized, queued,
/// executed or cancelled again.
pub proof fn settled_proposals_stay_settled(
    s: GovernanceState,
    who: Address,
    holder: Address,
    id: u64,
    direction: VoteDirection,
)
    requires
        is_settled(s, id),
    ensures
        voted(s, who, id, direction) is Err,
        delegate_voted(s, who, holder, id, direction) is Err,
        finalized(s, id) is Err,
        queued(s, id) is Err,
        executed(s, id, who) is Err,
        emergency_executed(s, who, id) is Err,
        proposal_cancelled(s, who, id) is Err,
{
}

/// A proposal passes just where its voting period is over, the quorum has
/// voted, there are votes for or against, and at least the fraction of them
/// that the approval threshold asks for is in favor.
pub proof fn passing_needs_quorum_and_approval(s: GovernanceState, id: u64)
    requires
        finalized(s, id) is Ok,
    ensures
        finalized(s, id)->Ok_0.1 == ProposalStatus::Passed <==> {
            &&& total_votes(s.proposals[id]) >= quorum_of(s)
            &&& s.proposals[id].votes_for + s.proposals[id].votes_against != 0
            &&& is_approved(s, s.proposals[id])
        },
        finalized(s, id)->Ok_0.1 == ProposalStatus::Passed || finalized(s, id)->Ok_0.1
            == ProposalStatus::Defeated,
        s.timestamp > s.proposals[id].voting_ends,
        finalized(s, id)->Ok_0.0.proposals[id].status == finalized(s, id)->Ok_0.1,
{
}

/// Queueing makes a proposal wait for its full delay, and a queued proposal is
/// executed no earlier than that.
pub proof fn execution_waits_for_the_timelock(
    s: GovernanceState,
    id: u64,
    later: GovernanceState,
    executor: Address,
)
    requires
        queued(s, id) is Ok,
        s.timestamp + proposal_delay(s, s.proposals[id]) <= u64::MAX,
        later.timelocks.contains_key(id),
        later.timelocks[id].execute_after == queued(s, id)->Ok_0.0.timelocks[id].execute_after,
        executed(later, id, executor) is Ok,
    ensures
        later.timestamp >= s.timestamp + proposal_delay(s, s.proposals[id]),
{
}

/// A proposal whose timelock entry was cancelled is not executed through the timelock.
pub proof fn cancelled_timelocks_never_execute(
    s: GovernanceState,
    admin: Address,
    id: u64,
    executor: Address,
)
    requires
        timelock::cancelled(s, admin, id) is Ok,
    ensures
        executed(timelock::cancelled(s, admin, id)->Ok_0.0, id, executor) is Err,
{
}

/// While the system is paused there are no new proposals, no votes and no
/// treasury withdrawals; unpausing lifts this.
pub proof fn a_pause_blocks(
    s: GovernanceState,
    who: Address,
    holder: Address,
    id: u64,
    direction: VoteDirection,
    title: Symbol,
    action: ProposalActionType,
)
    ensures
        paused(s, who) is Ok ==> {
            let t = paused(s, who)->Ok_0.0;
            &&& t.emergency_paused
            &&& proposed(t, holder, title, title, action, title) == Err::<
                (GovernanceState, u64),
                Error,
            >(Error::AlreadyPaused)
            &&& voted(t, holder, id, direction) == Err::<(GovernanceState, Symbol), Error>(
                Error::AlreadyPaused,
            )
            &&& delegate_voted(t, who, holder, id, direction) == Err::<
                (GovernanceState, Symbol),
                Error,
            >(Error::AlreadyPaused)
            &&& treasury_executed(t, id) == Err::<(GovernanceState, i128), TreasuryError>(
                TreasuryError::SystemPaused,
            )
        },
        unpaused(s, who) is Ok ==> !unpaused(s, who)->Ok_0.0.emergency_paused,
{
}

/// A reward is paid once per voter and proposal.
pub proof fn a_reward_is_claimed_once(s: GovernanceState, voter: Address, id: u64)
    requires
        reward_claimed(s, voter, id) is Ok,
    ensures
        reward_claimed(reward_claimed(s, voter, id)->Ok_0.0, voter, id) == Err::<
            (GovernanceState, i128),
            Error,
        >(Error::RewardAlreadyClaimed),
{
}

// ---------------------------------------------------------------------------
// Treasury
// ---------------------------------------------------------------------------

/// A withdrawal needs the configured number of different approvals, takes
/// exactly the requested amount off its asset, and happens once.
pub proof fn a_request_is_executed_once(s: GovernanceState, id: u64, other: Symbol)
    requires
        s.wf(),
        treasury_executed(s, id) is Ok,
        other != s.treasury_requests[id].asset,
    ensures
        ({
            let (t, amount) = treasury_executed(s, id)->Ok_0;
            let request = s.treasury_requests[id];
            &&& amount == request.amount
            &&& request.approvals.len() >= s.conf().treasury_multisig_threshold
            &&& request.approvals.no_duplicates()
            &&& value_or(t.treasury_balances, request.asset, 0) == value_or(
                s.treasury_balances,
                request.asset,
                0,
            ) - amount
            &&& value_or(t.treasury_balances, request.asset, 0) >= 0
            &&& value_or(t.treasury_balances, other, 0) == value_or(s.treasury_balances, other, 0)
            &&& treasury_executed(t, id) == Err::<(GovernanceState, i128), TreasuryError>(
                TreasuryError::AlreadyExecuted,
            )
        }),
{
}

/// A cancelled request is never executed.
pub proof fn a_cancelled_request_never_executes(s: GovernanceState, admin: Address, id: u64)
    requires
        request_cancelled(s, admin, id) is Ok,
    ensures
        treasury_executed(request_cancelled(s, admin, id)->Ok_0.0, id) is Err,
{
}

/// A signer approves a request once.
pub proof fn a_signer_approves_once(s: GovernanceState, signer: Address, id: u64)
    requires
        approved(s, signer, id) is Ok,
    ensures
        approved(approved(s, signer, id)->Ok_0.0, signer, id) is Err,
        approved(s, signer, id)->Ok_0.1.approvals.len() == s.treasury_requests[id].approvals.len()
            + 1,
{
    let t = approved(s, signer, id)->Ok_0.0;
    let n = s.treasury_requests[id].approvals.len() as int;
    assert(t.treasury_requests[id].approvals[n] == signer);
}

// ---------------------------------------------------------------------------
// Audit trail
// ---------------------------------------------------------------------------

/// The trail is within its limit, and its entries are numbered upward without
/// a gap, ending just before the next number.
pub open spec fn trail_is_numbered(s: GovernanceState) -> bool {
    &&& s.audit_trail.len() <= MAX_AUDIT_TRAIL
    &&& s.audit_trail.len() < s.next_audit_seq
    &&& forall|i: int|
        0 <= i < s.audit_trail.len() ==> (#[trigger] s.audit_trail[i]).seq == s.next_audit_seq
            - s.audit_trail.len() + i
}

/// Every new entry keeps the trail numbered and within its limit, and only the
/// oldest entry can fall out.
pub proof fn the_trail_stays_numbered(
    s: GovernanceState,
    action: Symbol,
    id: u64,
    actor: Address,
    detail: Symbol,
)
    requires
        trail_is_numbered(s),
        s.next_audit_seq < u64::MAX,
    ensures
        trail_is_numbered(s.noted(action, id, actor, detail)),
        s.noted(action, id, actor, detail).audit_trail.last().seq == s.next_audit_seq,
        s.audit_trail.len() < MAX_AUDIT_TRAIL ==> s.noted(
            action,
            id,
            actor,
            detail,
        ).audit_trail.drop_last() == s.audit_trail,
{
    let t = s.noted(action, id, actor, detail);
    capped_lists_stay_capped(s.audit_trail, t.audit_trail.last(), MAX_AUDIT_TRAIL as nat);
    if s.audit_trail.len() < MAX_AUDIT_TRAIL {
        assert(t.audit_trail.drop_last() =~= s.audit_trail);
    } else {
        assert forall|i: int| 0 <= i < t.audit_trail.len() implies (#[trigger]
        t.audit_trail[i]).seq == t.next_audit_seq - t.audit_trail.len() + i by {
            if i < t.audit_trail.len() - 1 {
                assert(t.audit_trail[i] == s.audit_trail[i + 1]);
            }
        }
    }
}

} // verus!
