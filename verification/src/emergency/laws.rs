//! What holds of the emergency controls over several calls.

use vstd::prelude::*;

use crate::base::address::Address;
use crate::base::symbol::Symbol;
use crate::base::vecs::capped_lists_stay_capped;
use crate::emergency::contract::{
    block, breaker_reset, counter_of, lemma_penalty_bounds, lemma_without, limit_index, limit_of,
    limits_with, notified, notifier_added, notifier_removed, paused, penalty_of,
    price_change_reported, rate_checked, rate_limit_set, safe_mode_entered, safe_mode_left, trips,
    unpaused, validated, withdrawn,
};
use crate::emergency::records::{
    Error, IncidentActionType, IncidentRecord, IncidentSeverity, RateLimitConfig, MAX_INCIDENT_LOG,
};
use crate::emergency::state::{ControlState, EmergencyEvent};

verus! {

// ---------------------------------------------------------------------------
// Pause and safe mode
// ---------------------------------------------------------------------------

/// While operations are paused, no operation passes that is not meant to go
/// on, and pausing again is refused.
pub proof fn a_pause_blocks_operations(
    s: ControlState,
    caller: Address,
    reason: Symbol,
    allow_during_safe_mode: bool,
    again: Symbol,
)
    requires
        paused(s, caller, reason) is Ok,
    ensures
        ({
            let t = paused(s, caller, reason)->Ok_0.0;
            &&& t.paused
            &&& t.pause_reason == reason
            &&& validated(t, false, allow_during_safe_mode) is Ok
            &&& validated(t, false, allow_during_safe_mode)->Ok_0.1 == false
            &&& paused(t, caller, again) == Err::<(ControlState, Symbol), Error>(
                Error::AlreadyPaused,
            )
        }),
{
}

/// Resuming undoes a pause: afterwards an operation passes exactly if it
/// passed before the pause.
pub proof fn resuming_undoes_a_pause(
    s: ControlState,
    caller: Address,
    reason: Symbol,
    end_reason: Symbol,
    allow_during_pause: bool,
    allow_during_safe_mode: bool,
)
    requires
        paused(s, caller, reason) is Ok,
    ensures
        ({
            let t = paused(s, caller, reason)->Ok_0.0;
            let u = unpaused(t, end_reason)->Ok_0.0;
            &&& unpaused(t, end_reason) is Ok
            &&& !u.paused
            &&& block(u, allow_during_pause, allow_during_safe_mode) == block(
                s,
                allow_during_pause,
                allow_during_safe_mode,
            )
        }),
{
}

/// Only the administrator and the guardian can pause or enter safe mode.
pub proof fn only_admin_and_guardian_stop(s: ControlState, caller: Address, reason: Symbol)
    requires
        s.admin is Some,
        s.admin != Some(caller),
        s.guardian != Some(caller),
    ensures
        paused(s, caller, reason) == Err::<(ControlState, Symbol), Error>(Error::AdminRequired),
        safe_mode_entered(s, caller, reason) == Err::<(ControlState, Symbol), Error>(
            Error::AdminRequired,
        ),
{
}

/// A pause, safe mode and a tripped circuit breaker do not stop emergency
/// withdrawals, nor change what they pay.
pub proof fn withdrawals_go_on(
    s: ControlState,
    t: ControlState,
    user: Address,
    amount: i128,
)
    requires
        s.withdrawal_fee == t.withdrawal_fee,
        withdrawn(s, user, amount) is Ok,
    ensures
        withdrawn(t, user, amount) is Ok,
        withdrawn(t, user, amount)->Ok_0.1 == withdrawn(s, user, amount)->Ok_0.1,
{
}

/// In safe mode no operation passes that is not meant to go on in it, and
/// leaving it undoes entering it.
pub proof fn safe_mode_blocks_and_ends(
    s: ControlState,
    caller: Address,
    reason: Symbol,
    end_reason: Symbol,
    allow_during_pause: bool,
    allow_during_safe_mode: bool,
)
    requires
        safe_mode_entered(s, caller, reason) is Ok,
    ensures
        ({
            let t = safe_mode_entered(s, caller, reason)->Ok_0.0;
            let u = safe_mode_left(t, end_reason)->Ok_0.0;
            &&& validated(t, allow_during_pause, false)->Ok_0.1 == false
            &&& safe_mode_left(t, end_reason) is Ok
            &&& block(u, allow_during_pause, allow_during_safe_mode) == block(
                s,
                allow_during_pause,
                allow_during_safe_mode,
            )
        }),
{
}

// ---------------------------------------------------------------------------
// Emergency withdrawals
// ---------------------------------------------------------------------------

/// What is paid and the penalty make up the amount, and neither is negative.
pub proof fn withdrawals_split_the_amount(s: ControlState, user: Address, amount: i128)
    requires
        s.wf(),
        withdrawn(s, user, amount) is Ok,
    ensures
        0 <= withdrawn(s, user, amount)->Ok_0.1 <= amount,
        withdrawn(s, user, amount)->Ok_0.1 + penalty_of(s, amount) == amount,
{
    lemma_penalty_bounds(s, amount);
}

// ---------------------------------------------------------------------------
// Circuit breaker
// ---------------------------------------------------------------------------

/// A price change of the same size trips the circuit breaker in either
/// direction, and a larger one trips it where a smaller one does.
pub proof fn the_size_of_a_change_counts(s: ControlState, change: i128, larger: i128)
    requires
        change != i128::MIN,
        0 <= change <= larger,
    ensures
        trips(s, change) == trips(s, (-change) as i128),
        trips(s, change) ==> trips(s, larger),
{
}

/// A tripped circuit breaker stops operations until it is reset and operations
/// are resumed; resetting alone leaves the pause.
pub proof fn a_trip_stops_operations(
    s: ControlState,
    caller: Address,
    change: i128,
    reason: Symbol,
    allow_during_safe_mode: bool,
)
    requires
        trips(s, change),
        s.admin is Some,
    ensures
        ({
            let t = price_change_reported(s, caller, change);
            let u = breaker_reset(t, reason)->Ok_0.0;
            let v = unpaused(t, reason)->Ok_0.0;
            &&& validated(t, false, allow_during_safe_mode)->Ok_0.1 == false
            &&& breaker_reset(t, reason) is Ok
            &&& u.paused
            &&& validated(u, false, allow_during_safe_mode)->Ok_0.1 == false
            &&& unpaused(t, reason) is Ok
            &&& v.circuit_tripped
            &&& validated(v, false, allow_during_safe_mode)->Ok_0.1 == false
            &&& !s.safe_mode ==> validated(
                unpaused(u, reason)->Ok_0.0,
                false,
                allow_during_safe_mode,
            )->Ok_0.1
        }),
{
}

// ---------------------------------------------------------------------------
// Rate limits
// ---------------------------------------------------------------------------

/// The state after checks at the first `n` of the given times, and how many of
/// them passed.
pub open spec fn checks(s: ControlState, operation: Symbol, times: Seq<u64>, n: int) -> (
    ControlState,
    nat,
)
    decreases n,
{
    if n <= 0 {
        (s, 0)
    } else {
        let before = checks(s, operation, times, n - 1);
        let at = ControlState { timestamp: times[n - 1], ..before.0 };
        match rate_checked(at, operation) {
            Ok((t, passed)) => (
                t,
                before.1 + if passed {
                    1nat
                } else {
                    0nat
                },
            ),
            Err(_) => before,
        }
    }
}

/// However often and whenever an operation is tried in the window that its
/// counter counts, no more calls pass than the limit allows.
pub proof fn a_window_lets_max_calls_pass(
    s: ControlState,
    operation: Symbol,
    times: Seq<u64>,
    n: int,
)
    requires
        0 <= n <= times.len(),
        limit_of(s, operation) is Some,
        counter_of(s, operation).count <= limit_of(s, operation)->Some_0.max_calls,
        forall|i: int|
            0 <= i < times.len() ==> (#[trigger] times[i]) < counter_of(s, operation).window_start
                + limit_of(s, operation)->Some_0.window_seconds,
    ensures
        ({
            let r = checks(s, operation, times, n);
            let c = limit_of(s, operation)->Some_0;
            let k = counter_of(s, operation);
            &&& limit_of(r.0, operation) == limit_of(s, operation)
            &&& counter_of(r.0, operation).window_start == k.window_start
            &&& counter_of(r.0, operation).count == k.count + r.1
            &&& k.count + r.1 <= c.max_calls
            &&& s.admin is Some ==> r.1 == (if n < c.max_calls - k.count {
                n
            } else {
                c.max_calls - k.count
            })
            &&& r.0.admin == s.admin
        }),
    decreases n,
{
    if n > 0 {
        a_window_lets_max_calls_pass(s, operation, times, n - 1);
        let before = checks(s, operation, times, n - 1);
        let at = ControlState { timestamp: times[n - 1], ..before.0 };
        assert(times[n - 1] < counter_of(s, operation).window_start + limit_of(
            s,
            operation,
        )->Some_0.window_seconds);
        assert(limit_of(at, operation) == limit_of(s, operation));
        assert(counter_of(at, operation) == counter_of(before.0, operation));
    }
}

/// Once its window is over, a limited operation passes again, and a new window begins.
pub proof fn a_new_window_starts_at_zero(s: ControlState, operation: Symbol)
    requires
        limit_of(s, operation) is Some,
        limit_of(s, operation)->Some_0.max_calls > 0,
        s.timestamp >= counter_of(s, operation).window_start + limit_of(
            s,
            operation,
        )->Some_0.window_seconds,
    ensures
        rate_checked(s, operation) is Ok,
        rate_checked(s, operation)->Ok_0.1,
        counter_of(rate_checked(s, operation)->Ok_0.0, operation).count == 1,
        counter_of(rate_checked(s, operation)->Ok_0.0, operation).window_start == s.timestamp,
{
}

/// Checking one operation's limit leaves the counters of all others alone.
pub proof fn limits_are_separate(s: ControlState, operation: Symbol, other: Symbol)
    requires
        operation != other,
        rate_checked(s, operation) is Ok,
    ensures
        counter_of(rate_checked(s, operation)->Ok_0.0, other) == counter_of(s, other),
{
}

proof fn lemma_limit_index(limits: Seq<RateLimitConfig>, operation: Symbol, from: int)
    requires
        0 <= from <= limits.len(),
    ensures
        from <= limit_index(limits, operation, from) <= limits.len(),
        limit_index(limits, operation, from) < limits.len() ==> limits[limit_index(
            limits,
            operation,
            from,
        )].operation == operation,
        forall|i: int|
            from <= i < limit_index(limits, operation, from) ==> (#[trigger] limits[i]).operation
                != operation,
    decreases limits.len() - from,
{
    if from < limits.len() && limits[from].operation != operation {
        lemma_limit_index(limits, operation, from + 1);
    }
}

proof fn lemma_limit_found(limits: Seq<RateLimitConfig>, operation: Symbol, from: int, at: int)
    requires
        0 <= from <= at < limits.len(),
        limits[at].operation == operation,
        forall|i: int| from <= i < at ==> (#[trigger] limits[i]).operation != operation,
    ensures
        limit_index(limits, operation, from) == at,
    decreases at - from,
{
    if from < at {
        assert(limits[from].operation != operation);
        lemma_limit_found(limits, operation, from + 1, at);
    }
}

/// The limit that was set is the limit of its operation.
pub proof fn a_limit_set_is_the_limit(s: ControlState, c: RateLimitConfig)
    requires
        rate_limit_set(s, c) is Ok,
    ensures
        limit_of(rate_limit_set(s, c)->Ok_0.0, c.operation) == Some(c),
{
    let after = limits_with(s.rate_limits, c);
    let at = limit_index(s.rate_limits, c.operation, 0);
    lemma_limit_index(s.rate_limits, c.operation, 0);
    assert forall|i: int| 0 <= i < at implies (#[trigger] after[i]).operation != c.operation by {
        assert(s.rate_limits[i].operation != c.operation);
    }
    lemma_limit_found(after, c.operation, 0, at);
}

// ---------------------------------------------------------------------------
// Incidents and notifiers
// ---------------------------------------------------------------------------

/// A noted incident is the newest of the log, which keeps its newest records
/// up to the limit.
pub proof fn incidents_are_kept_up_to_the_limit(
    s: ControlState,
    action_type: IncidentActionType,
    severity: IncidentSeverity,
    initiator: Address,
    description: Symbol,
    data: i128,
)
    requires
        s.incidents.len() <= MAX_INCIDENT_LOG,
    ensures
        ({
            let t = s.noted(action_type, severity, initiator, description, data);
            let record = IncidentRecord {
                timestamp: s.timestamp,
                action_type,
                severity,
                initiator,
                description,
                data,
            };
            &&& t.incidents.len() <= MAX_INCIDENT_LOG
            &&& t.incidents.last() == record
            &&& s.incidents.len() < MAX_INCIDENT_LOG ==> t.incidents.drop_last() == s.incidents
            &&& s.incidents.len() == MAX_INCIDENT_LOG ==> t.incidents.drop_last()
                == s.incidents.skip(1)
        }),
{
    capped_lists_stay_capped(
        s.incidents,
        IncidentRecord {
            timestamp: s.timestamp,
            action_type,
            severity,
            initiator,
            description,
            data,
        },
        MAX_INCIDENT_LOG as nat,
    );
}

/// Registering a notifier registers it, once; removing it removes it, and no
/// other.
pub proof fn notifiers_come_and_go(s: ControlState, notifier: Address, other: Address)
    requires
        s.wf(),
        notifier_added(s, notifier) is Ok,
        other != notifier,
    ensures
        ({
            let t = notifier_added(s, notifier)->Ok_0.0;
            let u = notifier_removed(t, notifier)->Ok_0.0;
            &&& t.notifiers.contains(notifier)
            &&& t.notifiers.no_duplicates()
            &&& notifier_removed(t, notifier) is Ok
            &&& !u.notifiers.contains(notifier)
            &&& u.notifiers.contains(other) == s.notifiers.contains(other)
        }),
{
    let t = notifier_added(s, notifier)->Ok_0.0;
    lemma_without(t.notifiers, notifier, t.notifiers.len() as int);
    assert(t.notifiers.take(t.notifiers.len() as int) =~= t.notifiers);
    if !s.notifiers.contains(notifier) {
        assert(t.notifiers[s.notifiers.len() as int] == notifier);
        if s.notifiers.contains(other) {
            let k = choose|k: int| 0 <= k < s.notifiers.len() && s.notifiers[k] == other;
            assert(t.notifiers[k] == other);
        }
    }
}

proof fn lemma_notified(
    s: ControlState,
    event_type: Symbol,
    severity: IncidentSeverity,
    data: i128,
    n: int,
)
    requires
        0 <= n <= s.notifiers.len(),
    ensures
        notified(s, event_type, severity, data, n).events == s.events + Seq::new(
            n as nat,
            |i: int|
                EmergencyEvent::Notified { notifier: s.notifiers[i], event_type, severity, data },
        ),
    decreases n,
{
    let all = s.events + Seq::new(
        n as nat,
        |i: int|
            EmergencyEvent::Notified { notifier: s.notifiers[i], event_type, severity, data },
    );
    if n > 0 {
        lemma_notified(s, event_type, severity, data, n - 1);
    }
    assert(notified(s, event_type, severity, data, n).events =~= all);
}

/// A notification publishes one event for each notifier, in their order.
pub proof fn every_notifier_is_notified(
    s: ControlState,
    event_type: Symbol,
    severity: IncidentSeverity,
    data: i128,
)
    ensures
        notified(s, event_type, severity, data, s.notifiers.len() as int).events == s.events
            + Seq::new(
            s.notifiers.len(),
            |i: int|
                EmergencyEvent::Notified { notifier: s.notifiers[i], event_type, severity, data },
        ),
{
    lemma_notified(s, event_type, severity, data, s.notifiers.len() as int);
}

} // verus!
