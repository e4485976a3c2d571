//! What each call leaves behind besides its outcome: the audit trail, the
//! events, and everything that it does not change. And why calls are refused.

use vstd::prelude::*;

use crate::base::address::Address;
use crate::base::symbol::{sym, Symbol};
use crate::governance::contract::{
    active_count, config_set, delegate_voted, delegated, delegation_count, emergency_executed,
    executed, finalized, initialized, paused, power_deposited, power_withdrawn,
    proposal_cancelled, proposed, queued, revoked, reward_claimed, sink_set, summary_of,
    supply_set, trail_of, treasury_executed, treasury_total, unpaused, voted,
};
use crate::governance::records::{
    Delegation, DelegationEvent, Error, GovernanceAuditEntry, GovernanceConfig, Proposal,
    ProposalActionType, ProposalEvent, ProposalStatus, TimelockEntry, TimelockError,
    TimelockStatus, TreasuryError, TreasuryRequestView, VoteDirection, VoteEvent,
};
use crate::governance::consequences::{in_treasury, is_open, stored_power};
use crate::governance::state::{GovernanceEvent, GovernanceState};
use crate::governance::timelock;
use crate::governance::treasury;

verus! {

/// The audit trail with one more entry of now, under the next number: five
/// thousand are kept, and the oldest goes for a new one.
pub open spec fn trail_with(
    s: GovernanceState,
    action: Symbol,
    proposal_id: u64,
    actor: Address,
    detail: Symbol,
) -> Seq<GovernanceAuditEntry> {
    let entry = GovernanceAuditEntry {
        seq: s.next_audit_seq,
        timestamp: s.timestamp,
        action,
        proposal_id,
        actor,
        detail,
    };
    if s.audit_trail.len() < 5_000 {
        s.audit_trail.push(entry)
    } else {
        s.audit_trail.subrange(1, s.audit_trail.len() as int).push(entry)
    }
}

/// Before any call nobody is in charge, nothing is proposed and no power and no
/// funds are held; proposals, requests and entries are counted from one.
pub proof fn nothing_is_there_at_first(now: u64)
    ensures
        ({
            let s = GovernanceState::fresh(now);
            &&& s.timestamp == now
            &&& s.admin is None && s.guardian is None && s.config is None && s.audit_sink is None
            &&& s.total_supply == 0 && s.total_voting_power == 0 && s.total_rewards == 0
            &&& s.next_proposal_id == 1 && s.next_request_id == 1 && s.next_audit_seq == 1
            &&& s.proposal_ids.len() == 0 && s.delegators.len() == 0
            &&& s.treasury_assets.len() == 0 && s.treasury_signers.len() == 0
            &&& s.audit_trail.len() == 0 && s.events.len() == 0
            &&& !s.emergency_paused
            &&& s.proposals == Map::<u64, Proposal>::empty()
            &&& s.voting_power == Map::<Address, i128>::empty()
            &&& s.treasury_balances == Map::<Symbol, i128>::empty()
            &&& s.timelocks == Map::<u64, TimelockEntry>::empty()
            &&& s.treasury_requests == Map::<u64, TreasuryRequestView>::empty()
        }),
{
}

/// The number of the trail's next entry has room.
pub open spec fn has_a_number(s: GovernanceState) -> bool {
    s.next_audit_seq < u64::MAX
}

// ---------------------------------------------------------------------------
// Roles and settings
// ---------------------------------------------------------------------------

/// Initializing tells the roles; a configuration is noted; the supply and the
/// connection to the audit log are what was set. All of this is for the
/// administrator.
pub proof fn settings_are_recorded(
    s: GovernanceState,
    admin: Address,
    guardian: Address,
    c: GovernanceConfig,
    supply: i128,
    sink: Address,
)
    requires
        has_a_number(s),
    ensures
        initialized(s, admin, guardian) is Ok ==> {
            let t = initialized(s, admin, guardian)->Ok_0.0;
            t == GovernanceState {
                admin: Some(admin),
                guardian: Some(guardian),
                config: t.config,
                total_supply: 0,
                emergency_paused: false,
                events: s.events.push(GovernanceEvent::Initialized { admin, guardian }),
                ..s
            }
        },
        s.admin is Some ==> initialized(s, admin, guardian) == Err::<(GovernanceState, Symbol), _>(
            Error::AlreadyInitialized,
        ),
        config_set(s, admin, c) is Ok ==> config_set(s, admin, c)->Ok_0 == (
            GovernanceState {
                config: Some(c),
                audit_trail: trail_with(s, sym("set_cfg"@), 0, admin, sym("config"@)),
                next_audit_seq: (s.next_audit_seq + 1) as u64,
                ..s
            },
            sym("ok"@),
        ),
        s.admin == Some(admin) ==> {
            &&& config_set(s, admin, c) is Err ==> config_set(s, admin, c)->Err_0
                == Error::InvalidConfig
            &&& supply_set(s, admin, supply) == Ok::<_, Error>(
                (GovernanceState { total_supply: supply, ..s }, sym("ok"@)),
            )
            &&& sink_set(s, admin, sink) == Ok::<_, Error>(
                (GovernanceState { audit_sink: Some(sink), ..s }, sym("ok"@)),
            )
        },
        s.admin is None ==> {
            let e = Err::<(GovernanceState, Symbol), _>(Error::NotInitialized);
            config_set(s, admin, c) == e && supply_set(s, admin, supply) == e && sink_set(
                s,
                admin,
                sink,
            ) == e
        },
        s.admin is Some && s.admin != Some(admin) ==> {
            let e = Err::<(GovernanceState, Symbol), _>(Error::Unauthorized);
            config_set(s, admin, c) == e && supply_set(s, admin, supply) == e && sink_set(
                s,
                admin,
                sink,
            ) == e
        },
{
}

/// Deposits and withdrawals of power are told with the amount and the new
/// power, and change nothing but the power of the holder and the total.
pub proof fn power_is_recorded(s: GovernanceState, holder: Address, amount: i128)
    ensures
        power_deposited(s, holder, amount) is Ok ==> {
            let (t, power) = power_deposited(s, holder, amount)->Ok_0;
            t == GovernanceState {
                voting_power: s.voting_power.insert(holder, power),
                total_voting_power: t.total_voting_power,
                events: s.events.push(GovernanceEvent::PowerDeposited { holder, amount, power }),
                ..s
            }
        },
        power_withdrawn(s, holder, amount) is Ok ==> {
            let (t, power) = power_withdrawn(s, holder, amount)->Ok_0;
            t == GovernanceState {
                voting_power: if power == 0 {
                    s.voting_power.remove(holder)
                } else {
                    s.voting_power.insert(holder, power)
                },
                total_voting_power: t.total_voting_power,
                events: s.events.push(GovernanceEvent::PowerWithdrawn { holder, amount, power }),
                ..s
            }
        },
        power_deposited(s, holder, amount) is Err ==> power_deposited(s, holder, amount)->Err_0
            == Error::InvalidConfig,
        amount <= 0 ==> power_withdrawn(s, holder, amount) == Err::<(GovernanceState, i128), _>(
            Error::InvalidConfig,
        ),
        amount > 0 && amount > stored_power(s, holder) ==> power_withdrawn(s, holder, amount)
            == Err::<(GovernanceState, i128), _>(Error::NoVotingPower),
{
}

// ---------------------------------------------------------------------------
// Proposals and votes
// ---------------------------------------------------------------------------

/// A proposal is noted and told, and changes nothing besides.
pub proof fn proposals_are_recorded(
    s: GovernanceState,
    proposer: Address,
    title: Symbol,
    description: Symbol,
    action_type: ProposalActionType,
    payload: Symbol,
)
    requires
        has_a_number(s),
    ensures
        ({
            let r = proposed(s, proposer, title, description, action_type, payload);
            &&& r is Ok ==> {
                let (t, id) = r->Ok_0;
                t == GovernanceState {
                    proposals: t.proposals,
                    next_proposal_id: t.next_proposal_id,
                    proposal_ids: t.proposal_ids,
                    audit_trail: trail_with(s, sym("submit"@), id, proposer, title),
                    next_audit_seq: (s.next_audit_seq + 1) as u64,
                    events: s.events.push(
                        GovernanceEvent::Proposed {
                            proposal: ProposalEvent {
                                proposal_id: id,
                                proposer,
                                title,
                                action_type,
                            },
                        },
                    ),
                    ..s
                }
            }
            &&& r is Ok ==> r->Ok_0.0.proposals[r->Ok_0.1].timelock_expiry == 0
            &&& s.emergency_paused ==> r == Err::<(GovernanceState, u64), _>(Error::AlreadyPaused)
            &&& !s.emergency_paused && stored_power(s, proposer) < s.conf().proposal_threshold
                ==> r == Err::<(GovernanceState, u64), _>(Error::InsufficientVotingPower)
            &&& !s.emergency_paused && stored_power(s, proposer) >= s.conf().proposal_threshold
                && r is Err ==> r->Err_0 == Error::MaxProposalsReached
        }),
{
}

/// A cancellation is noted; why one is refused.
pub proof fn cancellations_are_recorded(s: GovernanceState, caller: Address, id: u64)
    requires
        has_a_number(s),
    ensures
        ({
            let r = proposal_cancelled(s, caller, id);
            &&& r is Ok ==> r->Ok_0.1 == sym("ok"@) && r->Ok_0.0 == (GovernanceState {
                proposals: r->Ok_0.0.proposals,
                audit_trail: trail_with(s, sym("cancel"@), id, caller, sym("cancelled"@)),
                next_audit_seq: (s.next_audit_seq + 1) as u64,
                ..s
            })
            &&& !s.proposals.contains_key(id) ==> r->Err_0 == Error::ProposalNotFound
            &&& s.proposals.contains_key(id) && s.admin is None ==> r->Err_0
                == Error::NotInitialized
            &&& s.proposals.contains_key(id) && s.admin is Some && r is Err ==> r->Err_0
                == Error::CannotCancel
        }),
{
}

/// A vote is noted and told with the voter, the holder and the weight, and
/// changes nothing besides the tally and the record.
pub proof fn votes_are_recorded(
    s: GovernanceState,
    voter: Address,
    holder: Address,
    id: u64,
    direction: VoteDirection,
)
    requires
        has_a_number(s),
    ensures
        voted(s, voter, id, direction) is Ok ==> {
            let t = voted(s, voter, id, direction)->Ok_0.0;
            &&& voted(s, voter, id, direction)->Ok_0.1 == sym("ok"@)
            &&& t == GovernanceState {
                proposals: t.proposals,
                votes: t.votes,
                audit_trail: trail_with(s, sym("vote"@), id, voter, sym("cast"@)),
                next_audit_seq: (s.next_audit_seq + 1) as u64,
                events: s.events.push(
                    GovernanceEvent::Voted {
                        vote: VoteEvent {
                            proposal_id: id,
                            voter,
                            direction,
                            weight: stored_power(s, voter) as i128,
                        },
                    },
                ),
                ..s
            }
        },
        delegate_voted(s, voter, holder, id, direction) is Ok ==> {
            let t = delegate_voted(s, voter, holder, id, direction)->Ok_0.0;
            &&& delegate_voted(s, voter, holder, id, direction)->Ok_0.1 == sym("ok"@)
            &&& t == GovernanceState {
                proposals: t.proposals,
                votes: t.votes,
                audit_trail: trail_with(s, sym("del_vote"@), id, voter, sym("del_vote"@)),
                next_audit_seq: (s.next_audit_seq + 1) as u64,
                events: s.events.push(
                    GovernanceEvent::DelegateVoted {
                        delegate: voter,
                        vote: VoteEvent {
                            proposal_id: id,
                            voter: holder,
                            direction,
                            weight: stored_power(s, holder) as i128,
                        },
                    },
                ),
                ..s
            }
        },
{
}

/// Why a vote is refused, in the order in which it is asked.
pub proof fn refused_votes_are_told_why(
    s: GovernanceState,
    voter: Address,
    id: u64,
    direction: VoteDirection,
)
    ensures
        ({
            let r = voted(s, voter, id, direction);
            let p = s.proposals[id];
            let known = s.proposals.contains_key(id);
            &&& s.emergency_paused ==> r->Err_0 == Error::AlreadyPaused
            &&& !s.emergency_paused && !known ==> r->Err_0 == Error::ProposalNotFound
            &&& !s.emergency_paused && known && p.status != ProposalStatus::Voting ==> r->Err_0
                == Error::NotVotable
            &&& !s.emergency_paused && known && p.status == ProposalStatus::Voting && s.timestamp
                > p.voting_ends ==> r->Err_0 == Error::VotingAlreadyEnded
            &&& !s.emergency_paused && known && p.status == ProposalStatus::Voting && s.timestamp
                <= p.voting_ends && s.votes.contains_key((id, voter)) ==> r->Err_0
                == Error::AlreadyVoted
            &&& !s.emergency_paused && known && p.status == ProposalStatus::Voting && s.timestamp
                <= p.voting_ends && !s.votes.contains_key((id, voter)) && stored_power(s, voter)
                <= 0 ==> r->Err_0 == Error::NoVotingPower
        }),
{
}

/// The end of a vote is noted with what decided it, and one that passed is
/// told with its tallies. Nothing besides the proposal changes.
pub proof fn outcomes_are_recorded(s: GovernanceState, id: u64)
    requires
        has_a_number(s),
        s.proposals.contains_key(id),
    ensures
        ({
            let r = finalized(s, id);
            let p = s.proposals[id];
            let (t, status) = r->Ok_0;
            let all = p.votes_for + p.votes_against + p.votes_abstain;
            &&& r is Ok && status == ProposalStatus::Passed ==> t == (GovernanceState {
                proposals: t.proposals,
                audit_trail: trail_with(s, sym("pass"@), id, p.proposer, sym("passed"@)),
                next_audit_seq: (s.next_audit_seq + 1) as u64,
                events: s.events.push(
                    GovernanceEvent::Passed {
                        proposal_id: id,
                        votes_for: p.votes_for,
                        votes_against: p.votes_against,
                        total_votes: all as i128,
                    },
                ),
                ..s
            })
            &&& r is Ok && status == ProposalStatus::Defeated ==> {
                ||| t == (GovernanceState { proposals: t.proposals, ..s })
                ||| t == (GovernanceState {
                    proposals: t.proposals,
                    audit_trail: trail_with(s, sym("defeat"@), id, p.proposer, sym("quorum"@)),
                    next_audit_seq: (s.next_audit_seq + 1) as u64,
                    ..s
                })
                ||| t == (GovernanceState {
                    proposals: t.proposals,
                    audit_trail: trail_with(s, sym("defeat"@), id, p.proposer, sym("approval"@)),
                    next_audit_seq: (s.next_audit_seq + 1) as u64,
                    ..s
                })
            }
            &&& p.status != ProposalStatus::Voting ==> r->Err_0 == Error::VotingAlreadyEnded
            &&& p.status == ProposalStatus::Voting && s.timestamp <= p.voting_ends ==> r->Err_0
                == Error::VotingNotEnded
            &&& p.status == ProposalStatus::Voting && s.timestamp > p.voting_ends && r is Err
                ==> r->Err_0 == Error::InvalidConfig
        }),
{
}

// ---------------------------------------------------------------------------
// The timelock
// ---------------------------------------------------------------------------

/// The entry of a proposal waits from now for the delay, where that is not
/// nothing.
pub proof fn entries_are_scheduled(s: GovernanceState, id: u64, delay: u64)
    requires
        s.timestamp + delay <= u64::MAX,
    ensures
        delay == 0 ==> timelock::scheduled(s, id, delay) == Err::<
            (GovernanceState, TimelockEntry),
            _,
        >(TimelockError::InvalidDelay),
        delay > 0 ==> {
            let (t, entry) = timelock::scheduled(s, id, delay)->Ok_0;
            &&& timelock::scheduled(s, id, delay) is Ok
            &&& entry.proposal_id == id
            &&& entry.scheduled_at == s.timestamp
            &&& entry.execute_after == s.timestamp + delay
            &&& entry.status == TimelockStatus::Pending
            &&& t == GovernanceState {
                timelocks: s.timelocks.insert(id, entry),
                events: s.events.push(
                    GovernanceEvent::TimelockScheduled {
                        proposal_id: id,
                        delay_seconds: delay,
                        execute_after: entry.execute_after,
                    },
                ),
                ..s
            }
        },
{
}

/// The entry is there and neither executed nor cancelled.
pub open spec fn is_open_entry(s: GovernanceState, id: u64) -> bool {
    s.timelocks.contains_key(id) && (s.timelocks[id].status == TimelockStatus::Pending
        || s.timelocks[id].status == TimelockStatus::Ready)
}

/// An open entry is marked ready once it is due, executed by whoever executes
/// it, and cancelled by the administrator; nothing else about it changes.
pub proof fn open_entries_are_marked(s: GovernanceState, admin: Address, id: u64)
    ensures
        ({
            let c = timelock::checked(s, id);
            let e = timelock::executed(s, id);
            let x = timelock::cancelled(s, admin, id);
            let open = is_open_entry(s, id);
            let entry = s.timelocks[id];
            &&& c is Ok <==> open && s.timestamp >= entry.execute_after
            &&& c is Ok ==> c->Ok_0.1 == (TimelockEntry { status: TimelockStatus::Ready, ..entry })
                && c->Ok_0.0 == (GovernanceState {
                timelocks: s.timelocks.insert(id, c->Ok_0.1),
                ..s
            })
            &&& e is Ok <==> open
            &&& e is Ok ==> e->Ok_0.1 == (TimelockEntry {
                status: TimelockStatus::Executed,
                ..entry
            }) && e->Ok_0.0 == (GovernanceState {
                timelocks: s.timelocks.insert(id, e->Ok_0.1),
                events: s.events.push(GovernanceEvent::TimelockExecuted { proposal_id: id }),
                ..s
            })
            &&& x is Ok <==> open && s.admin == Some(admin)
            &&& x is Ok ==> x->Ok_0.1 == (TimelockEntry {
                status: TimelockStatus::Cancelled,
                ..entry
            }) && x->Ok_0.0 == (GovernanceState {
                timelocks: s.timelocks.insert(id, x->Ok_0.1),
                events: s.events.push(GovernanceEvent::TimelockCancelled { proposal_id: id }),
                ..s
            })
        }),
{
}

/// Why an entry is not marked, in the order in which it is asked.
pub proof fn refused_entries_are_told_why(s: GovernanceState, admin: Address, id: u64)
    ensures
        ({
            let c = timelock::checked(s, id);
            let e = timelock::executed(s, id);
            let x = timelock::cancelled(s, admin, id);
            let why = if !s.timelocks.contains_key(id) {
                TimelockError::EntryNotFound
            } else if s.timelocks[id].status == TimelockStatus::Executed {
                TimelockError::AlreadyExecuted
            } else {
                TimelockError::AlreadyCancelled
            };
            &&& !is_open_entry(s, id) ==> c->Err_0 == why && e->Err_0 == why
            &&& is_open_entry(s, id) && c is Err ==> c->Err_0 == TimelockError::DelayNotExpired
            &&& s.admin != Some(admin) ==> x->Err_0 == TimelockError::Unauthorized
            &&& s.admin == Some(admin) && !is_open_entry(s, id) ==> x->Err_0 == why
        }),
{
}

/// Queueing and executing are noted and told, and change nothing besides the
/// proposal and its entry.
pub proof fn executions_are_recorded(s: GovernanceState, id: u64, executor: Address)
    requires
        has_a_number(s),
    ensures
        queued(s, id) is Ok ==> {
            let t = queued(s, id)->Ok_0.0;
            let p = s.proposals[id];
            &&& queued(s, id)->Ok_0.1 == sym("ok"@)
            &&& t == GovernanceState {
                proposals: t.proposals,
                timelocks: t.timelocks,
                audit_trail: trail_with(s, sym("tl_queue"@), id, p.proposer, sym("queued"@)),
                next_audit_seq: (s.next_audit_seq + 1) as u64,
                events: t.events,
                ..s
            }
            &&& t.timelocks[id].proposal_id == id
        },
        executed(s, id, executor) is Ok ==> {
            let t = executed(s, id, executor)->Ok_0.0;
            &&& executed(s, id, executor)->Ok_0.1 == sym("ok"@)
            &&& t == GovernanceState {
                proposals: t.proposals,
                timelocks: s.timelocks.insert(
                    id,
                    TimelockEntry { status: TimelockStatus::Executed, ..s.timelocks[id] },
                ),
                audit_trail: trail_with(s, sym("execute"@), id, executor, sym("executed"@)),
                next_audit_seq: (s.next_audit_seq + 1) as u64,
                events: s.events.push(GovernanceEvent::TimelockExecuted { proposal_id: id }).push(
                    GovernanceEvent::Executed { proposal_id: id, executor, at: s.timestamp },
                ),
                ..s
            }
        },
        !s.proposals.contains_key(id) ==> queued(s, id)->Err_0 == Error::ProposalNotFound
            && executed(s, id, executor)->Err_0 == Error::ProposalNotFound && finalized(
            s,
            id,
        )->Err_0 == Error::ProposalNotFound,
        s.proposals.contains_key(id) && queued(s, id) is Err ==> queued(s, id)->Err_0
            == Error::CannotTimelock,
        s.proposals.contains_key(id) && s.proposals[id].status != ProposalStatus::Timelock
            ==> executed(s, id, executor)->Err_0 == Error::CannotExecute,
        s.proposals.contains_key(id) && s.proposals[id].status == ProposalStatus::Timelock
            && executed(s, id, executor) is Err ==> executed(s, id, executor)->Err_0
            == Error::TimelockNotExpired,
{
    if executed(s, id, executor) is Ok {
        let t = executed(s, id, executor)->Ok_0.0;
        assert(t.timelocks =~= s.timelocks.insert(
            id,
            TimelockEntry { status: TimelockStatus::Executed, ..s.timelocks[id] },
        ));
    }
}

proof fn lemma_pending(s: GovernanceState, ids: Seq<u64>, n: int)
    requires
        0 <= n <= ids.len(),
    ensures
        timelock::pending_of(s, ids, n) == ids.take(n).filter(
            |id: u64| is_open_entry(s, id),
        ).map_values(|id: u64| s.timelocks[id]),
    decreases n,
{
    reveal(Seq::filter);
    let open = |id: u64| is_open_entry(s, id);
    let entry = |id: u64| s.timelocks[id];
    if n > 0 {
        lemma_pending(s, ids, n - 1);
        assert(ids.take(n).drop_last() =~= ids.take(n - 1));
        assert(ids.take(n).last() == ids[n - 1]);
        let before = ids.take(n - 1).filter(open);
        assert(before.push(ids[n - 1]).map_values(entry) =~= before.map_values(entry).push(
            entry(ids[n - 1]),
        ));
    } else {
        assert(ids.take(0).filter(open).map_values(entry) =~= Seq::empty());
    }
}

/// The pending entries are the open ones, in order.
pub proof fn open_entries_are_listed(s: GovernanceState, ids: Seq<u64>)
    ensures
        timelock::pending_of(s, ids, ids.len() as int) == ids.filter(
            |id: u64| is_open_entry(s, id),
        ).map_values(|id: u64| s.timelocks[id]),
{
    lemma_pending(s, ids, ids.len() as int);
    assert(ids.take(ids.len() as int) =~= ids);
}

// ---------------------------------------------------------------------------
// Emergencies
// ---------------------------------------------------------------------------

/// Pauses and executions in an emergency are noted and told, and change
/// nothing besides.
pub proof fn emergencies_are_recorded(s: GovernanceState, caller: Address, id: u64)
    requires
        has_a_number(s),
    ensures
        paused(s, caller) is Ok ==> paused(s, caller)->Ok_0 == (
            GovernanceState {
                emergency_paused: true,
                audit_trail: trail_with(s, sym("em_pause"@), 0, caller, sym("paused"@)),
                next_audit_seq: (s.next_audit_seq + 1) as u64,
                events: s.events.push(GovernanceEvent::Paused { caller }),
                ..s
            },
            sym("ok"@),
        ),
        unpaused(s, caller) is Ok ==> unpaused(s, caller)->Ok_0 == (
            GovernanceState {
                emergency_paused: false,
                audit_trail: trail_with(s, sym("em_unpse"@), 0, caller, sym("unpaused"@)),
                next_audit_seq: (s.next_audit_seq + 1) as u64,
                events: s.events.push(GovernanceEvent::Unpaused { admin: caller }),
                ..s
            },
            sym("ok"@),
        ),
        emergency_executed(s, caller, id) is Ok ==> {
            let t = emergency_executed(s, caller, id)->Ok_0.0;
            &&& emergency_executed(s, caller, id)->Ok_0.1 == sym("ok"@)
            &&& t == GovernanceState {
                proposals: t.proposals,
                audit_trail: trail_with(s, sym("em_exec"@), id, caller, sym("emergency"@)),
                next_audit_seq: (s.next_audit_seq + 1) as u64,
                events: s.events.push(
                    GovernanceEvent::EmergencyExecuted {
                        caller,
                        proposal_id: id,
                        at: s.timestamp,
                    },
                ),
                ..s
            }
        },
{
}

/// Why what is done in an emergency is refused.
pub proof fn refused_emergencies_are_told_why(s: GovernanceState, caller: Address, id: u64)
    ensures
        ({
            let p = paused(s, caller);
            let u = unpaused(s, caller);
            let e = emergency_executed(s, caller, id);
            let set = s.admin is Some && s.guardian is Some;
            let allowed = s.admin == Some(caller) || s.guardian == Some(caller);
            &&& !set ==> p->Err_0 == Error::NotInitialized && e->Err_0 == Error::NotInitialized
            &&& set && !allowed ==> p->Err_0 == Error::GuardianRequired && e->Err_0
                == Error::GuardianRequired
            &&& set && allowed && p is Err ==> p->Err_0 == Error::AlreadyPaused
            &&& set && allowed && !s.proposals.contains_key(id) ==> e->Err_0
                == Error::ProposalNotFound
            &&& set && allowed && s.proposals.contains_key(id) && e is Err ==> e->Err_0
                == Error::CannotExecute
            &&& s.admin is None ==> u->Err_0 == Error::NotInitialized
            &&& s.admin is Some && s.admin != Some(caller) ==> u->Err_0 == Error::Unauthorized
            &&& s.admin == Some(caller) && u is Err ==> u->Err_0 == Error::NotPaused
        }),
{
}

// ---------------------------------------------------------------------------
// Delegations
// ---------------------------------------------------------------------------

proof fn lemma_address_index(list: Seq<Address>, a: Address, at: int)
    requires
        0 <= at < list.len(),
        list[at] == a,
        forall|i: int| 0 <= i < at ==> list[i] != a,
    ensures
        treasury::address_index(list, a) == at,
    decreases at,
{
    if at > 0 {
        let rest = list.skip(1);
        assert forall|i: int| 0 <= i < at - 1 implies rest[i] != a by {
            assert(list[i + 1] != a);
        }
        assert(list[0] != a);
        lemma_address_index(rest, a, at - 1);
    }
}

/// Delegating and revoking are noted and told. The list of delegators names
/// each once, and revoking takes the first mention off it.
pub proof fn delegations_are_recorded(s: GovernanceState, a: Address, b: Address, at: int)
    requires
        has_a_number(s),
        0 <= at < s.delegators.len(),
        s.delegators[at] == a,
        forall|i: int| 0 <= i < at ==> s.delegators[i] != a,
    ensures
        ({
            let d = delegated(s, a, b);
            let r = revoked(s, a);
            &&& a != b ==> d == Ok::<_, Error>(
                (
                    GovernanceState {
                        delegations: s.delegations.insert(
                            a,
                            Delegation {
                                delegator: a,
                                delegate: b,
                                created_at: s.timestamp,
                                active: true,
                            },
                        ),
                        audit_trail: trail_with(s, sym("delegate"@), 0, a, sym("delegate"@)),
                        next_audit_seq: (s.next_audit_seq + 1) as u64,
                        events: s.events.push(
                            GovernanceEvent::Delegated {
                                delegation: DelegationEvent {
                                    delegator: a,
                                    delegate: b,
                                    active: true,
                                },
                            },
                        ),
                        ..s
                    },
                    sym("ok"@),
                ),
            )
            &&& a == b ==> d->Err_0 == Error::CannotDelegateToSelf
            &&& s.delegations.contains_key(a) ==> r == Ok::<_, Error>(
                (
                    GovernanceState {
                        delegations: s.delegations.insert(
                            a,
                            Delegation { active: false, ..s.delegations[a] },
                        ),
                        delegators: s.delegators.remove(at),
                        audit_trail: trail_with(s, sym("rvk_del"@), 0, a, sym("rvk_del"@)),
                        next_audit_seq: (s.next_audit_seq + 1) as u64,
                        events: s.events.push(
                            GovernanceEvent::DelegationRevoked {
                                delegation: DelegationEvent {
                                    delegator: a,
                                    delegate: s.delegations[a].delegate,
                                    active: false,
                                },
                            },
                        ),
                        ..s
                    },
                    sym("ok"@),
                ),
            )
            &&& !s.delegations.contains_key(a) ==> r->Err_0 == Error::DelegationNotFound
        }),
{
    lemma_address_index(s.delegators, a, at);
    assert(s.delegators.contains(a));
}

/// A new delegator is the last of the list.
pub proof fn new_delegators_come_last(s: GovernanceState, a: Address, b: Address)
    requires
        a != b,
        !s.delegators.contains(a),
    ensures
        delegated(s, a, b)->Ok_0.0.delegators == s.delegators.push(a),
{
}

// ---------------------------------------------------------------------------
// Treasury
// ---------------------------------------------------------------------------

/// Deposits, requests, approvals and payments are told, and change nothing
/// besides what they are about.
pub proof fn the_treasury_is_recorded(
    s: GovernanceState,
    who: Address,
    recipient: Address,
    amount: i128,
    asset: Symbol,
    reason: Symbol,
    c: GovernanceConfig,
    id: u64,
)
    ensures
        ({
            let d = treasury::deposited(s, who, asset, amount);
            let r = treasury::requested(s, who, recipient, amount, asset, reason, c);
            let a = treasury::approved(s, who, id);
            let w = treasury_executed(s, id);
            let q = s.treasury_requests[id];
            &&& d is Ok ==> d->Ok_0.0 == (GovernanceState {
                treasury_balances: s.treasury_balances.insert(asset, d->Ok_0.1),
                treasury_assets: if s.treasury_assets.contains(asset) {
                    s.treasury_assets
                } else {
                    s.treasury_assets.push(asset)
                },
                events: s.events.push(
                    GovernanceEvent::TreasuryDeposited { depositor: who, asset, amount },
                ),
                ..s
            })
            &&& r is Ok ==> r->Ok_0.0 == (GovernanceState {
                treasury_requests: r->Ok_0.0.treasury_requests,
                next_request_id: r->Ok_0.0.next_request_id,
                events: s.events.push(
                    GovernanceEvent::TreasuryRequested {
                        requester: who,
                        asset,
                        request_id: r->Ok_0.1,
                        amount,
                        recipient,
                    },
                ),
                ..s
            })
            &&& a is Ok ==> a->Ok_0.1 == (TreasuryRequestView {
                approvals: q.approvals.push(who),
                ..q
            }) && a->Ok_0.0 == (GovernanceState {
                treasury_requests: s.treasury_requests.insert(id, a->Ok_0.1),
                events: s.events.push(
                    GovernanceEvent::TreasuryApproved {
                        signer: who,
                        request_id: id,
                        approvals: (q.approvals.len() + 1) as u32,
                    },
                ),
                ..s
            })
            &&& w is Ok ==> w->Ok_0.0 == (GovernanceState {
                treasury_balances: s.treasury_balances.insert(
                    q.asset,
                    (in_treasury(s, q.asset) - q.amount) as i128,
                ),
                treasury_requests: s.treasury_requests.insert(
                    id,
                    TreasuryRequestView { executed: true, ..q },
                ),
                events: s.events.push(
                    GovernanceEvent::TreasuryExecuted {
                        recipient: q.recipient,
                        request_id: id,
                        amount: q.amount,
                        asset: q.asset,
                    },
                ),
                ..s
            })
        }),
{
}

/// Why the treasury refuses, in the order in which it is asked.
pub proof fn the_treasury_tells_why(
    s: GovernanceState,
    who: Address,
    recipient: Address,
    amount: i128,
    asset: Symbol,
    reason: Symbol,
    c: GovernanceConfig,
    id: u64,
)
    requires
        s.config == Some(c),
    ensures
        ({
            let d = treasury::deposited(s, who, asset, amount);
            let r = treasury::requested(s, who, recipient, amount, asset, reason, c);
            let a = treasury::approved(s, who, id);
            let w = treasury_executed(s, id);
            let x = treasury::request_cancelled(s, who, id);
            let q = s.treasury_requests[id];
            let known = s.treasury_requests.contains_key(id);
            let signs = s.admin is Some && (s.treasury_signers.contains(who) || s.admin == Some(
                who,
            ));
            &&& amount <= 0 ==> d->Err_0 == TreasuryError::InvalidAmount && r->Err_0
                == TreasuryError::InvalidAmount
            &&& amount > 0 && d is Err ==> d->Err_0 == TreasuryError::InsufficientBalance
            &&& amount > 0 && r is Err ==> r->Err_0 == TreasuryError::InsufficientBalance
                || r->Err_0 == TreasuryError::ExceedsSpendLimit
            &&& !signs ==> a->Err_0 == TreasuryError::NotASigner
            &&& signs && !known ==> a->Err_0 == TreasuryError::RequestNotFound
            &&& signs && known && q.executed ==> a->Err_0 == TreasuryError::AlreadyExecuted
            &&& signs && known && !q.executed && a is Err ==> a->Err_0
                == TreasuryError::AlreadyApproved
            &&& s.emergency_paused ==> w->Err_0 == TreasuryError::SystemPaused
            &&& !s.emergency_paused && !known ==> w->Err_0 == TreasuryError::RequestNotFound
            &&& !s.emergency_paused && known && q.executed ==> w->Err_0
                == TreasuryError::AlreadyExecuted
            &&& !s.emergency_paused && known && !q.executed && q.approvals.len()
                < c.treasury_multisig_threshold ==> w->Err_0 == TreasuryError::InsufficientApprovals
            &&& !s.emergency_paused && known && !q.executed && q.approvals.len()
                >= c.treasury_multisig_threshold && w is Err ==> w->Err_0
                == TreasuryError::InsufficientBalance
            &&& s.admin != Some(who) ==> x->Err_0 == TreasuryError::NotASigner
            &&& s.admin == Some(who) && !known ==> x->Err_0 == TreasuryError::RequestNotFound
            &&& s.admin == Some(who) && known && q.executed ==> x->Err_0
                == TreasuryError::AlreadyExecuted
        }),
{
}

/// The administrator, and nobody else, cancels an open request, adds signers,
/// each once and the new one last, and removes them.
pub proof fn the_administrator_keeps_the_signers(
    s: GovernanceState,
    admin: Address,
    signer: Address,
    id: u64,
    at: int,
)
    requires
        0 <= at < s.treasury_signers.len() ==> s.treasury_signers[at] == signer && forall|i: int|
            0 <= i < at ==> s.treasury_signers[i] != signer,
    ensures
        ({
            let x = treasury::request_cancelled(s, admin, id);
            let a = treasury::signer_added(s, admin, signer);
            let r = treasury::signer_removed(s, admin, signer);
            let q = s.treasury_requests[id];
            &&& x is Ok <==> s.admin == Some(admin) && s.treasury_requests.contains_key(id)
                && !q.executed
            &&& x is Ok ==> x->Ok_0 == (
                GovernanceState {
                    treasury_requests: s.treasury_requests.insert(
                        id,
                        TreasuryRequestView { executed: true, ..q },
                    ),
                    events: s.events.push(
                        GovernanceEvent::TreasuryCancelled { admin, request_id: id },
                    ),
                    ..s
                },
                sym("ok"@),
            )
            &&& a is Ok <==> s.admin == Some(admin)
            &&& r is Ok <==> s.admin == Some(admin)
            &&& a is Err ==> a->Err_0 == TreasuryError::NotASigner
            &&& r is Err ==> r->Err_0 == TreasuryError::NotASigner
            &&& a is Ok ==> a->Ok_0 == (
                GovernanceState {
                    treasury_signers: if s.treasury_signers.contains(signer) {
                        s.treasury_signers
                    } else {
                        s.treasury_signers.push(signer)
                    },
                    ..s
                },
                sym("ok"@),
            )
            &&& r is Ok && !s.treasury_signers.contains(signer) ==> r->Ok_0 == (s, sym("ok"@))
            &&& r is Ok && 0 <= at < s.treasury_signers.len() ==> r->Ok_0 == (
                GovernanceState { treasury_signers: s.treasury_signers.remove(at), ..s },
                sym("ok"@),
            )
        }),
{
    if 0 <= at < s.treasury_signers.len() {
        lemma_address_index(s.treasury_signers, signer, at);
        assert(s.treasury_signers.contains(signer));
    }
}

/// Rewards are noted and told; why one is refused.
pub proof fn rewards_are_recorded(s: GovernanceState, voter: Address, id: u64)
    requires
        has_a_number(s),
    ensures
        ({
            let r = reward_claimed(s, voter, id);
            let claimed = s.rewards_claimed.contains_key((id, voter))
                && s.rewards_claimed[(id, voter)];
            &&& r is Ok ==> r->Ok_0.0 == (GovernanceState {
                rewards_claimed: r->Ok_0.0.rewards_claimed,
                total_rewards: r->Ok_0.0.total_rewards,
                audit_trail: trail_with(s, sym("reward"@), id, voter, sym("claimed"@)),
                next_audit_seq: (s.next_audit_seq + 1) as u64,
                events: s.events.push(
                    GovernanceEvent::RewardClaimed { voter, proposal_id: id, reward: r->Ok_0.1 },
                ),
                ..s
            })
            &&& claimed ==> r->Err_0 == Error::RewardAlreadyClaimed
            &&& !claimed && r is Err ==> r->Err_0 == Error::NoVotingPower
        }),
{
}

// ---------------------------------------------------------------------------
// Overviews
// ---------------------------------------------------------------------------

/// What the treasury holds of the assets together.
pub open spec fn held_together(s: GovernanceState, assets: Seq<Symbol>) -> int
    decreases assets.len(),
{
    if assets.len() == 0 {
        0
    } else {
        held_together(s, assets.drop_last()) + in_treasury(s, assets.last())
    }
}

proof fn lemma_held(s: GovernanceState, assets: Seq<Symbol>, n: int)
    requires
        0 <= n <= assets.len(),
    ensures
        treasury_total(s, assets, n) == held_together(s, assets.take(n)),
    decreases n,
{
    if n > 0 {
        lemma_held(s, assets, n - 1);
        assert(assets.take(n).drop_last() =~= assets.take(n - 1));
        assert(assets.take(n).last() == assets[n - 1]);
    }
}

proof fn lemma_delegations(s: GovernanceState, who: Seq<Address>, n: int)
    requires
        0 <= n <= who.len(),
    ensures
        delegation_count(s, who, n) == who.take(n).filter(
            |a: Address| s.delegations.contains_key(a) && s.delegations[a].active,
        ).len(),
    decreases n,
{
    reveal(Seq::filter);
    if n > 0 {
        lemma_delegations(s, who, n - 1);
        assert(who.take(n).drop_last() =~= who.take(n - 1));
        assert(who.take(n).last() == who[n - 1]);
    }
}

proof fn lemma_open(s: GovernanceState, ids: Seq<u64>, n: int)
    requires
        0 <= n <= ids.len(),
    ensures
        active_count(s, ids, n) == ids.take(n).filter(|id: u64| is_open(s, id)).len(),
    decreases n,
{
    reveal(Seq::filter);
    if n > 0 {
        lemma_open(s, ids, n - 1);
        assert(ids.take(n).drop_last() =~= ids.take(n - 1));
        assert(ids.take(n).last() == ids[n - 1]);
    }
}

/// The summary counts all proposals, those that are open and the active
/// delegations, and gives the voting power and what the treasury holds.
pub proof fn summaries_count_what_is_there(s: GovernanceState)
    ensures
        ({
            let r = summary_of(s);
            &&& r.total_proposals == s.proposal_ids.len() as u64
            &&& r.active_proposals == s.proposal_ids.filter(
                |id: u64| is_open(s, id),
            ).len() as u32
            &&& r.active_delegations == s.delegators.filter(
                |a: Address| s.delegations.contains_key(a) && s.delegations[a].active,
            ).len() as u32
            &&& r.total_voting_power == s.total_voting_power
            &&& r.treasury_balance == held_together(s, s.treasury_assets) as i128
            &&& r.emergency_paused == s.emergency_paused
        }),
{
    lemma_open(s, s.proposal_ids, s.proposal_ids.len() as int);
    assert(s.proposal_ids.take(s.proposal_ids.len() as int) =~= s.proposal_ids);
    lemma_delegations(s, s.delegators, s.delegators.len() as int);
    assert(s.delegators.take(s.delegators.len() as int) =~= s.delegators);
    lemma_held(s, s.treasury_assets, s.treasury_assets.len() as int);
    assert(s.treasury_assets.take(s.treasury_assets.len() as int) =~= s.treasury_assets);
}

/// The trail of a proposal is its entries, in order.
pub proof fn trails_are_by_proposal(trail: Seq<GovernanceAuditEntry>, id: u64, n: int)
    requires
        0 <= n <= trail.len(),
    ensures
        trail_of(trail, id, n) == trail.take(n).filter(
            |e: GovernanceAuditEntry| e.proposal_id == id,
        ),
    decreases n,
{
    reveal(Seq::filter);
    if n > 0 {
        trails_are_by_proposal(trail, id, n - 1);
        assert(trail.take(n).drop_last() =~= trail.take(n - 1));
        assert(trail.take(n).last() == trail[n - 1]);
    }
}

} // verus!
