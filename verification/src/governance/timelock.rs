//! Time-delayed execution of passed proposals.

use vstd::prelude::*;

use crate::base::address::Address;
use crate::base::effect::effect;
use crate::governance::records::{GovernanceConfig, TimelockEntry, TimelockError, TimelockStatus};
use crate::governance::state::{GovernanceEnv, GovernanceEvent, GovernanceState};

verus! {

/// The state with a timelock entry put in place.
pub open spec fn with_entry(s: GovernanceState, entry: TimelockEntry, id: u64) -> GovernanceState {
    GovernanceState { timelocks: s.timelocks.insert(id, entry), ..s }
}

/// What scheduling does: the entry is due `delay` seconds from now.
pub open spec fn scheduled(s: GovernanceState, proposal_id: u64, delay: u64) -> Result<
    (GovernanceState, TimelockEntry),
    TimelockError,
> {
    if delay == 0 {
        Err(TimelockError::InvalidDelay)
    } else {
        let entry = TimelockEntry {
            proposal_id,
            scheduled_at: s.timestamp,
            execute_after: (s.timestamp + delay) as u64,
            status: TimelockStatus::Pending,
        };
        Ok(
            (
                with_entry(s, entry, proposal_id).emit(
                    GovernanceEvent::TimelockScheduled {
                        proposal_id,
                        delay_seconds: delay,
                        execute_after: entry.execute_after,
                    },
                ),
                entry,
            ),
        )
    }
}

/// Schedule a timelock for a passed proposal.
///
/// Sets the timelock expiry to `now + delay_seconds` and stores the entry.
pub fn schedule(env: &mut GovernanceEnv, proposal_id: u64, delay_seconds: u64) -> (r: Result<
    TimelockEntry,
    TimelockError,
>)
    requires
        old(env)@.timestamp + delay_seconds <= u64::MAX,
    ensures
        effect(scheduled(old(env)@, proposal_id, delay_seconds), r, old(env)@, final(env)@),
{
    if delay_seconds == 0 {
        return Err(TimelockError::InvalidDelay);
    }
    let now: u64 = env.timestamp;
    let entry = TimelockEntry {
        proposal_id,
        scheduled_at: now,
        execute_after: now + delay_seconds,
        status: TimelockStatus::Pending,
    };
    env.timelocks.set(proposal_id, entry);
    env.publish(
        GovernanceEvent::TimelockScheduled {
            proposal_id,
            delay_seconds,
            execute_after: entry.execute_after,
        },
    );
    assert(env@ =~= scheduled(old(env)@, proposal_id, delay_seconds)->Ok_0.0);
    Ok(entry)
}

/// The error of an entry that is missing or already settled.
pub open spec fn entry_error(s: GovernanceState, id: u64) -> Option<TimelockError> {
    if !s.timelocks.contains_key(id) {
        Some(TimelockError::EntryNotFound)
    } else if s.timelocks[id].status == TimelockStatus::Executed {
        Some(TimelockError::AlreadyExecuted)
    } else if s.timelocks[id].status == TimelockStatus::Cancelled {
        Some(TimelockError::AlreadyCancelled)
    } else {
        None
    }
}

fn open_entry(env: &GovernanceEnv, proposal_id: u64) -> (r: Result<TimelockEntry, TimelockError>)
    ensures
        match entry_error(env@, proposal_id) {
            Some(e) => r == Err::<TimelockEntry, TimelockError>(e),
            None => r == Ok::<TimelockEntry, TimelockError>(env@.timelocks[proposal_id]),
        },
{
    match env.timelocks.copied(proposal_id) {
        None => Err(TimelockError::EntryNotFound),
        Some(entry) => {
            if entry.status == TimelockStatus::Executed {
                Err(TimelockError::AlreadyExecuted)
            } else if entry.status == TimelockStatus::Cancelled {
                Err(TimelockError::AlreadyCancelled)
            } else {
                Ok(entry)
            }
        },
    }
}

/// What checking readiness does: an entry whose delay has expired is ready.
pub open spec fn checked(s: GovernanceState, id: u64) -> Result<
    (GovernanceState, TimelockEntry),
    TimelockError,
> {
    match entry_error(s, id) {
        Some(e) => Err(e),
        None => if s.timestamp < s.timelocks[id].execute_after {
            Err(TimelockError::DelayNotExpired)
        } else {
            let entry = TimelockEntry { status: TimelockStatus::Ready, ..s.timelocks[id] };
            Ok((with_entry(s, entry, id), entry))
        },
    }
}

/// Check if a timelock entry's delay has expired and mark it as Ready.
pub fn check_ready(env: &mut GovernanceEnv, proposal_id: u64) -> (r: Result<
    TimelockEntry,
    TimelockError,
>)
    ensures
        effect(checked(old(env)@, proposal_id), r, old(env)@, final(env)@),
{
    let mut entry: TimelockEntry = match open_entry(env, proposal_id) {
        Ok(x) => x,
        Err(e) => return Err(e),
    };
    if env.timestamp < entry.execute_after {
        return Err(TimelockError::DelayNotExpired);
    }
    if entry.status != TimelockStatus::Ready {
        entry.status = TimelockStatus::Ready;
        env.timelocks.set(proposal_id, entry);
    }
    assert(env@ =~= checked(old(env)@, proposal_id)->Ok_0.0);
    Ok(entry)
}

/// What marking an entry as executed does.
pub open spec fn executed(s: GovernanceState, id: u64) -> Result<
    (GovernanceState, TimelockEntry),
    TimelockError,
> {
    match entry_error(s, id) {
        Some(e) => Err(e),
        None => {
            let entry = TimelockEntry { status: TimelockStatus::Executed, ..s.timelocks[id] };
            Ok(
                (
                    with_entry(s, entry, id).emit(
                        GovernanceEvent::TimelockExecuted { proposal_id: id },
                    ),
                    entry,
                ),
            )
        },
    }
}

/// Mark a timelock entry as executed.
pub fn mark_executed(env: &mut GovernanceEnv, proposal_id: u64) -> (r: Result<
    TimelockEntry,
    TimelockError,
>)
    ensures
        effect(executed(old(env)@, proposal_id), r, old(env)@, final(env)@),
{
    let mut entry: TimelockEntry = match open_entry(env, proposal_id) {
        Ok(x) => x,
        Err(e) => return Err(e),
    };
    entry.status = TimelockStatus::Executed;
    env.timelocks.set(proposal_id, entry);
    env.publish(GovernanceEvent::TimelockExecuted { proposal_id });
    assert(env@ =~= executed(old(env)@, proposal_id)->Ok_0.0);
    Ok(entry)
}

/// What cancelling an entry does.
pub open spec fn cancelled(s: GovernanceState, admin: Address, id: u64) -> Result<
    (GovernanceState, TimelockEntry),
    TimelockError,
> {
    if !s.is_admin(admin) {
        Err(TimelockError::Unauthorized)
    } else {
        match entry_error(s, id) {
            Some(e) => Err(e),
            None => {
                let entry = TimelockEntry { status: TimelockStatus::Cancelled, ..s.timelocks[id] };
                Ok(
                    (
                        with_entry(s, entry, id).emit(
                            GovernanceEvent::TimelockCancelled { proposal_id: id },
                        ),
                        entry,
                    ),
                )
            },
        }
    }
}

/// Cancel a timelock entry. Admin-only.
pub fn cancel(env: &mut GovernanceEnv, admin: Address, proposal_id: u64) -> (r: Result<
    TimelockEntry,
    TimelockError,
>)
    requires
        old(env)@.authorized(admin),
    ensures
        effect(cancelled(old(env)@, admin, proposal_id), r, old(env)@, final(env)@),
{
    let is_admin: bool = match env.admin {
        Some(a) => a == admin,
        None => false,
    };
    if !is_admin {
        return Err(TimelockError::Unauthorized);
    }
    let mut entry: TimelockEntry = match open_entry(env, proposal_id) {
        Ok(x) => x,
        Err(e) => return Err(e),
    };
    entry.status = TimelockStatus::Cancelled;
    env.timelocks.set(proposal_id, entry);
    env.publish(GovernanceEvent::TimelockCancelled { proposal_id });
    assert(env@ =~= cancelled(old(env)@, admin, proposal_id)->Ok_0.0);
    Ok(entry)
}

/// Get a timelock entry by proposal id.
pub fn get_entry(env: &GovernanceEnv, proposal_id: u64) -> (r: Option<TimelockEntry>)
    ensures
        r == (if env@.timelocks.contains_key(proposal_id) {
            Some(env@.timelocks[proposal_id])
        } else {
            None
        }),
{
    env.timelocks.copied(proposal_id)
}

/// The delay of a proposal.
pub open spec fn delay_of(is_emergency: bool, config: GovernanceConfig) -> u64 {
    if is_emergency {
        config.emergency_timelock_delay
    } else {
        config.timelock_delay
    }
}

/// Get the effective delay for a proposal action type.
///
/// Uses the emergency timelock delay for emergency actions, and the standard
/// timelock delay for all others.
pub fn effective_delay(is_emergency: bool, config: &GovernanceConfig) -> (d: u64)
    ensures
        d == delay_of(is_emergency, *config),
{
    if is_emergency {
        config.emergency_timelock_delay
    } else {
        config.timelock_delay
    }
}

/// The entries of the first `n` proposals that still wait to be executed.
pub open spec fn pending_of(s: GovernanceState, ids: Seq<u64>, n: int) -> Seq<TimelockEntry>
    decreases n,
{
    if n <= 0 {
        Seq::empty()
    } else {
        let rest = pending_of(s, ids, n - 1);
        let id = ids[n - 1];
        if s.timelocks.contains_key(id) && (s.timelocks[id].status == TimelockStatus::Pending
            || s.timelocks[id].status == TimelockStatus::Ready) {
            rest.push(s.timelocks[id])
        } else {
            rest
        }
    }
}

/// Get all pending timelock entries (for querying).
pub fn get_pending_entries(env: &GovernanceEnv, all_proposal_ids: &Vec<u64>) -> (r: Vec<
    TimelockEntry,
>)
    ensures
        r@ == pending_of(env@, all_proposal_ids@, all_proposal_ids@.len() as int),
{
    let mut pending: Vec<TimelockEntry> = Vec::new();
    let mut i: usize = 0;
    assert(pending@ =~= pending_of(env@, all_proposal_ids@, 0));
    while i < all_proposal_ids.len()
        invariant
            i <= all_proposal_ids@.len(),
            pending@ == pending_of(env@, all_proposal_ids@, i as int),
        decreases all_proposal_ids@.len() - i,
    {
        match get_entry(env, all_proposal_ids[i]) {
            Some(entry) => {
                if entry.status == TimelockStatus::Pending || entry.status
                    == TimelockStatus::Ready {
                    pending.push(entry);
                }
            },
            None => {},
        }
        i += 1;
    }
    pending
}

} // verus!
