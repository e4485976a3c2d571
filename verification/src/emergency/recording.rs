//! What each call leaves behind: the settings, the incident log, the events
//! and the reports to the audit log.

use vstd::prelude::*;

use crate::audit::contract::EventData;
use crate::audit::logger::AuditCallView;
use crate::audit::records::AuditEventType;
use crate::base::address::Address;
use crate::base::symbol::{sym, Symbol};
use crate::emergency::contract::{
    admin_transferred, breaker_reset, guardian_set, limit_index, lock_period_set, log_cleared,
    max_trade_set, notified, notifier_added, notifier_removed, paused, price_change_reported,
    rate_checked, rate_limit_set, safe_mode_entered, safe_mode_left, sink_set, threshold_set,
    unpaused, validated, withdrawal_fee_set, withdrawn, without,
};
use crate::emergency::records::{
    Error, IncidentActionType, IncidentRecord, IncidentSeverity, RateLimitConfig,
    RateLimitCounter,
};
use crate::emergency::state::{ControlState, EmergencyEvent};

verus! {

/// The incident log with one more record of now: two hundred are kept, and the
/// oldest goes for a new one.
pub open spec fn log_with(
    s: ControlState,
    action_type: IncidentActionType,
    severity: IncidentSeverity,
    initiator: Address,
    description: Symbol,
    data: i128,
) -> Seq<IncidentRecord> {
    let record = IncidentRecord {
        timestamp: s.timestamp,
        action_type,
        severity,
        initiator,
        description,
        data,
    };
    if s.incidents.len() < 200 {
        s.incidents.push(record)
    } else {
        s.incidents.subrange(1, s.incidents.len() as int).push(record)
    }
}

/// The reports to the audit log with one more, where one is connected.
pub open spec fn reports_with(
    s: ControlState,
    actor: Address,
    event_type: AuditEventType,
    detail: Seq<char>,
) -> Seq<AuditCallView> {
    if s.audit_sink is Some {
        s.audit_calls.push(
            AuditCallView {
                sink: s.audit_sink->Some_0,
                data: EventData {
                    actor,
                    event_type,
                    portfolio: sym("emerg"@),
                    permissions: 2,
                    state_before: Seq::empty(),
                    state_after: Seq::empty(),
                    outcome: sym("ok"@),
                    detail,
                },
            },
        )
    } else {
        s.audit_calls
    }
}

/// Before any call nothing is stopped and nobody is in charge; the settings
/// have their defaults.
pub proof fn nothing_is_stopped_at_first(now: u64)
    ensures
        ({
            let s = ControlState::fresh(now);
            &&& s.timestamp == now
            &&& s.admin is None && s.guardian is None && s.audit_sink is None
            &&& !s.paused && !s.safe_mode && !s.circuit_tripped
            &&& s.pause_reason == sym("none"@) && s.safe_mode_reason == sym("none"@)
            &&& s.circuit_threshold == 2_000
            &&& s.max_trade == 100_000_000
            &&& s.withdrawal_fee == 1_000
            &&& s.lock_period == 86_400
            &&& s.incidents.len() == 0 && s.rate_limits.len() == 0 && s.notifiers.len() == 0
            &&& s.events.len() == 0 && s.audit_calls.len() == 0
            &&& s.rate_counters == Map::<Symbol, RateLimitCounter>::empty()
        }),
{
}

/// A pause has its reason and ends with none. Both are critical or grave
/// incidents of whoever called, are told, and are reported.
pub proof fn pauses_are_recorded(s: ControlState, caller: Address, reason: Symbol)
    ensures
        paused(s, caller, reason) is Ok ==> paused(s, caller, reason)->Ok_0 == (
            ControlState {
                paused: true,
                pause_reason: reason,
                incidents: log_with(
                    s,
                    IncidentActionType::Pause,
                    IncidentSeverity::Critical,
                    caller,
                    reason,
                    0,
                ),
                audit_calls: reports_with(
                    s,
                    caller,
                    AuditEventType::EmergencyPause,
                    "pause_activated"@,
                ),
                events: s.events.push(EmergencyEvent::Paused { caller, reason }),
                ..s
            },
            sym("ok"@),
        ),
        s.admin is Some && unpaused(s, reason) is Ok ==> unpaused(s, reason)->Ok_0 == (
            ControlState {
                paused: false,
                pause_reason: sym("none"@),
                incidents: log_with(
                    s,
                    IncidentActionType::Unpause,
                    IncidentSeverity::High,
                    s.admin->Some_0,
                    reason,
                    0,
                ),
                audit_calls: reports_with(
                    s,
                    s.admin->Some_0,
                    AuditEventType::EmergencyPause,
                    "pause_deactivated"@,
                ),
                events: s.events.push(
                    EmergencyEvent::Unpaused { admin: s.admin->Some_0, reason },
                ),
                ..s
            },
            sym("ok"@),
        ),
{
}

/// Why a pause, safe mode and the breaker do not change.
pub proof fn refusals_to_stop_and_resume_say_why(
    s: ControlState,
    caller: Address,
    reason: Symbol,
)
    ensures
        ({
            let allowed = s.admin == Some(caller) || s.guardian == Some(caller);
            &&& s.admin is None ==> {
                &&& paused(s, caller, reason) == Err::<(ControlState, Symbol), _>(
                    Error::NotInitialized,
                )
                &&& safe_mode_entered(s, caller, reason) == Err::<(ControlState, Symbol), _>(
                    Error::NotInitialized,
                )
                &&& unpaused(s, reason) == Err::<(ControlState, Symbol), _>(Error::NotInitialized)
                &&& safe_mode_left(s, reason) == Err::<(ControlState, Symbol), _>(
                    Error::NotInitialized,
                )
                &&& breaker_reset(s, reason) == Err::<(ControlState, Symbol), _>(
                    Error::NotInitialized,
                )
            }
            &&& s.admin is Some && !allowed ==> {
                &&& paused(s, caller, reason) == Err::<(ControlState, Symbol), _>(
                    Error::AdminRequired,
                )
                &&& safe_mode_entered(s, caller, reason) == Err::<(ControlState, Symbol), _>(
                    Error::AdminRequired,
                )
            }
            &&& s.admin is Some && allowed && s.paused ==> paused(s, caller, reason) == Err::<
                (ControlState, Symbol),
                _,
            >(Error::AlreadyPaused)
            &&& s.admin is Some && allowed && s.safe_mode ==> safe_mode_entered(s, caller, reason)
                == Err::<(ControlState, Symbol), _>(Error::AlreadyInSafeMode)
            &&& s.admin is Some && !s.paused ==> unpaused(s, reason) == Err::<
                (ControlState, Symbol),
                _,
            >(Error::NotPaused)
            &&& s.admin is Some && !s.safe_mode ==> safe_mode_left(s, reason) == Err::<
                (ControlState, Symbol),
                _,
            >(Error::NotInSafeMode)
            &&& s.admin is Some && !s.circuit_tripped ==> breaker_reset(s, reason) == Err::<
                (ControlState, Symbol),
                _,
            >(Error::CircuitBreakerTripped)
        }),
{
}

/// Safe mode has its reason and ends with none. Both are grave incidents and
/// are told.
pub proof fn safe_mode_is_recorded(s: ControlState, caller: Address, reason: Symbol)
    ensures
        safe_mode_entered(s, caller, reason) is Ok ==> safe_mode_entered(s, caller, reason)->Ok_0
            == (
            ControlState {
                safe_mode: true,
                safe_mode_reason: reason,
                incidents: log_with(
                    s,
                    IncidentActionType::SafeModeEnter,
                    IncidentSeverity::High,
                    caller,
                    reason,
                    0,
                ),
                events: s.events.push(EmergencyEvent::SafeModeEntered { caller, reason }),
                ..s
            },
            sym("ok"@),
        ),
        safe_mode_left(s, reason) is Ok <==> s.admin is Some && s.safe_mode,
        safe_mode_left(s, reason) is Ok ==> safe_mode_left(s, reason)->Ok_0 == (
            ControlState {
                safe_mode: false,
                safe_mode_reason: sym("none"@),
                incidents: log_with(
                    s,
                    IncidentActionType::SafeModeExit,
                    IncidentSeverity::High,
                    s.admin->Some_0,
                    reason,
                    0,
                ),
                events: s.events.push(
                    EmergencyEvent::SafeModeExited { admin: s.admin->Some_0, reason },
                ),
                ..s
            },
            sym("ok"@),
        ),
{
}

/// A trip is a critical incident, pauses for its own reason and tells the
/// change and the threshold; a reset is a grave incident and lifts no pause.
pub proof fn trips_are_recorded(s: ControlState, caller: Address, change: i128, reason: Symbol)
    ensures
        change >= s.circuit_threshold || -change >= s.circuit_threshold ==> price_change_reported(
            s,
            caller,
            change,
        ) == (ControlState {
            circuit_tripped: true,
            paused: true,
            pause_reason: sym("CIRCUIT"@),
            incidents: log_with(
                s,
                IncidentActionType::CircuitBreakerTrip,
                IncidentSeverity::Critical,
                caller,
                sym("CB_TRIP"@),
                change,
            ),
            events: s.events.push(
                EmergencyEvent::BreakerTripped {
                    caller,
                    change_bps: change,
                    threshold: s.circuit_threshold,
                },
            ),
            ..s
        }),
        breaker_reset(s, reason) is Ok ==> breaker_reset(s, reason)->Ok_0 == (
            ControlState {
                circuit_tripped: false,
                incidents: log_with(
                    s,
                    IncidentActionType::CircuitBreakerReset,
                    IncidentSeverity::High,
                    s.admin->Some_0,
                    reason,
                    0,
                ),
                events: s.events.push(
                    EmergencyEvent::BreakerReset { admin: s.admin->Some_0, reason },
                ),
                ..s
            },
            sym("ok"@),
        ),
{
}

/// A withdrawal is a grave incident of the user with the amount, and is
/// reported; one that is not positive is refused, and so is one whose penalty
/// cannot be computed.
pub proof fn withdrawals_are_recorded(s: ControlState, user: Address, amount: i128)
    ensures
        withdrawn(s, user, amount) is Ok ==> {
            let t = withdrawn(s, user, amount)->Ok_0.0;
            &&& t.incidents == log_with(
                s,
                IncidentActionType::EmergencyWithdrawal,
                IncidentSeverity::High,
                user,
                sym("EM_WD"@),
                amount,
            )
            &&& t.audit_calls == reports_with(
                s,
                user,
                AuditEventType::EmergencyUnstake,
                "emergency_withdrawal"@,
            )
            &&& t.events == s.events.push(t.events.last())
        },
        amount <= 0 ==> withdrawn(s, user, amount) == Err::<(ControlState, i128), _>(
            Error::InvalidConfiguration,
        ),
        amount > 0 && withdrawn(s, user, amount) is Err ==> withdrawn(s, user, amount)->Err_0
            == Error::ArithmeticOverflow,
{
}

/// An operation that is not let through is an incident of the administrator:
/// a grave one where only the tripped breaker stops it.
pub proof fn blocked_operations_are_recorded(s: ControlState, in_pause: bool, in_safe_mode: bool)
    requires
        s.admin is Some,
    ensures
        ({
            let r = validated(s, in_pause, in_safe_mode);
            let by_pause = s.paused && !in_pause;
            let by_safe_mode = s.safe_mode && !in_safe_mode;
            let by_breaker = s.circuit_tripped && !in_pause;
            let admin = s.admin->Some_0;
            let kind = IncidentActionType::OperationBlocked;
            &&& by_pause ==> r == Ok::<_, Error>(
                (
                    ControlState {
                        incidents: log_with(
                            s,
                            kind,
                            IncidentSeverity::Medium,
                            admin,
                            sym("OP_BLK"@),
                            0,
                        ),
                        ..s
                    },
                    false,
                ),
            )
            &&& !by_pause && by_safe_mode ==> r == Ok::<_, Error>(
                (
                    ControlState {
                        incidents: log_with(
                            s,
                            kind,
                            IncidentSeverity::Medium,
                            admin,
                            sym("OP_SFBL"@),
                            0,
                        ),
                        ..s
                    },
                    false,
                ),
            )
            &&& !by_pause && !by_safe_mode && by_breaker ==> r == Ok::<_, Error>(
                (
                    ControlState {
                        incidents: log_with(
                            s,
                            kind,
                            IncidentSeverity::High,
                            admin,
                            sym("CB_BLCK"@),
                            0,
                        ),
                        ..s
                    },
                    false,
                ),
            )
            &&& !by_pause && !by_safe_mode && !by_breaker ==> r == Ok::<_, Error>((s, true))
        }),
{
}

/// A change of a setting is an incident of the administrator with the new
/// value.
pub proof fn settings_are_recorded(s: ControlState, x: i128, who: Address, limit: RateLimitConfig)
    requires
        s.admin is Some,
    ensures
        ({
            let admin = s.admin->Some_0;
            let medium = IncidentSeverity::Medium;
            &&& threshold_set(s, x) is Ok ==> threshold_set(s, x)->Ok_0.0.incidents == log_with(
                s,
                IncidentActionType::ThresholdUpdated,
                medium,
                admin,
                sym("CB_TH"@),
                x,
            )
            &&& max_trade_set(s, x) is Ok ==> max_trade_set(s, x)->Ok_0.0.incidents == log_with(
                s,
                IncidentActionType::MaxTradeUpdated,
                medium,
                admin,
                sym("MX_TR"@),
                x,
            ) && max_trade_set(s, x)->Ok_0.0.events == s.events.push(
                EmergencyEvent::MaxTradeSet { admin, max_trade: x },
            )
            &&& withdrawal_fee_set(s, x) is Ok ==> withdrawal_fee_set(s, x)->Ok_0.0.incidents
                == log_with(
                s,
                IncidentActionType::ConfigUpdated,
                medium,
                admin,
                sym("EM_WF"@),
                x,
            )
            &&& guardian_set(s, who)->Ok_0.0.incidents == log_with(
                s,
                IncidentActionType::ConfigUpdated,
                medium,
                admin,
                sym("GRD_SET"@),
                0,
            )
            &&& rate_limit_set(s, limit) is Ok ==> rate_limit_set(s, limit)->Ok_0.0.incidents
                == log_with(
                s,
                IncidentActionType::RateLimitUpdated,
                IncidentSeverity::Low,
                admin,
                sym("RT_UPD"@),
                limit.max_calls as i128,
            )
            &&& sink_set(s, who) == Ok::<_, Error>(
                (
                    ControlState {
                        audit_sink: Some(who),
                        incidents: log_with(
                            s,
                            IncidentActionType::ConfigUpdated,
                            medium,
                            admin,
                            sym("AUD_S"@),
                            0,
                        ),
                        ..s
                    },
                    sym("ok"@),
                ),
            )
            &&& admin_transferred(s, who) == Ok::<_, Error>(
                (
                    ControlState {
                        admin: Some(who),
                        incidents: log_with(
                            s,
                            IncidentActionType::ConfigUpdated,
                            IncidentSeverity::Critical,
                            admin,
                            sym("ADM_TRF"@),
                            0,
                        ),
                        ..s
                    },
                    sym("ok"@),
                ),
            )
            &&& log_cleared(s) == Ok::<_, Error>(
                (ControlState { incidents: Seq::empty(), ..s }, sym("ok"@)),
            )
        }),
{
}

/// Nothing is set before there is an administrator, and no value out of range.
pub proof fn refusals_to_set_say_why(
    s: ControlState,
    x: i128,
    period: u64,
    who: Address,
    limit: RateLimitConfig,
)
    ensures
        s.admin is None ==> {
            let e = Err::<(ControlState, Symbol), _>(Error::NotInitialized);
            &&& threshold_set(s, x) == e
            &&& max_trade_set(s, x) == e
            &&& withdrawal_fee_set(s, x) == e
            &&& lock_period_set(s, period) == e
            &&& guardian_set(s, who) == e
            &&& rate_limit_set(s, limit) == e
            &&& sink_set(s, who) == e
            &&& admin_transferred(s, who) == e
            &&& log_cleared(s) == e
            &&& notifier_added(s, who) == e
            &&& notifier_removed(s, who) == e
        },
        s.admin is Some ==> {
            let e = Err::<(ControlState, Symbol), _>(Error::InvalidConfiguration);
            &&& threshold_set(s, x) is Err ==> threshold_set(s, x) == e
            &&& max_trade_set(s, x) is Err ==> max_trade_set(s, x) == e
            &&& withdrawal_fee_set(s, x) is Err ==> withdrawal_fee_set(s, x) == e
            &&& rate_limit_set(s, limit) is Err ==> rate_limit_set(s, limit) == e
        },
{
}

/// A call beyond its limit is an incident with the number of calls before it
/// in the window, and changes nothing else.
pub proof fn calls_beyond_a_limit_are_recorded(s: ControlState, operation: Symbol)
    requires
        s.admin is Some,
        rate_checked(s, operation) is Ok,
        s.rate_counters.contains_key(operation),
        s.rate_counters[operation].count > 0,
        !rate_checked(s, operation)->Ok_0.1,
        forall|i: int|
            0 <= i < s.rate_limits.len() ==> (#[trigger] s.rate_limits[i]).max_calls > 0,
    ensures
        rate_checked(s, operation)->Ok_0.0 == (ControlState {
            incidents: log_with(
                s,
                IncidentActionType::OperationBlocked,
                IncidentSeverity::Medium,
                s.admin->Some_0,
                sym("RT_BLCK"@),
                s.rate_counters[operation].count as i128,
            ),
            ..s
        }),
{
    lemma_limit_index(s.rate_limits, operation, 0);
}

proof fn lemma_limit_index(limits: Seq<RateLimitConfig>, operation: Symbol, from: int)
    requires
        0 <= from <= limits.len(),
    ensures
        from <= limit_index(limits, operation, from) <= limits.len(),
        limit_index(limits, operation, from) < limits.len() ==> limits[limit_index(
            limits,
            operation,
            from,
        )].operation == operation,
        forall|i: int|
            from <= i < limit_index(limits, operation, from) ==> (#[trigger] limits[i]).operation
                != operation,
    decreases limits.len() - from,
{
    if from < limits.len() && limits[from].operation != operation {
        lemma_limit_index(limits, operation, from + 1);
    }
}

/// A limit takes the place of the first for its operation, or is the last.
pub proof fn limits_are_kept_by_operation(s: ControlState, limit: RateLimitConfig, at: int)
    requires
        s.admin is Some,
        limit.max_calls > 0,
        limit.window_seconds > 0,
        0 <= at <= s.rate_limits.len(),
        at < s.rate_limits.len() ==> s.rate_limits[at].operation == limit.operation,
        forall|i: int|
            0 <= i < at ==> (#[trigger] s.rate_limits[i]).operation != limit.operation,
    ensures
        rate_limit_set(s, limit)->Ok_0.0.rate_limits == if at < s.rate_limits.len() {
            s.rate_limits.update(at, limit)
        } else {
            s.rate_limits.push(limit)
        },
{
    lemma_limit_index(s.rate_limits, limit.operation, 0);
    let k = limit_index(s.rate_limits, limit.operation, 0);
    if k < at {
        assert(s.rate_limits[k].operation != limit.operation);
    }
    if at < k {
        assert(s.rate_limits[at].operation != limit.operation);
    }
}

proof fn lemma_without(list: Seq<Address>, a: Address, n: int)
    requires
        0 <= n <= list.len(),
    ensures
        without(list, a, n) == list.take(n).filter(|x: Address| x != a),
    decreases n,
{
    reveal(Seq::filter);
    if n > 0 {
        lemma_without(list, a, n - 1);
        assert(list.take(n).drop_last() =~= list.take(n - 1));
        assert(list.take(n).last() == list[n - 1]);
    }
}

/// Up to fifty notifiers are registered, each once and in order; one that is
/// removed leaves the others in order.
pub proof fn notifiers_are_listed_in_order(s: ControlState, who: Address)
    requires
        s.admin is Some,
    ensures
        ({
            let r = notifier_added(s, who);
            &&& r is Ok <==> s.notifiers.len() < 50
            &&& r is Err ==> r->Err_0 == Error::TooManyNotifiers
            &&& r is Ok ==> r->Ok_0 == (
                ControlState {
                    notifiers: if s.notifiers.contains(who) {
                        s.notifiers
                    } else {
                        s.notifiers.push(who)
                    },
                    ..s
                },
                sym("ok"@),
            )
            &&& notifier_removed(s, who) == Ok::<_, Error>(
                (
                    ControlState { notifiers: s.notifiers.filter(|x: Address| x != who), ..s },
                    sym("ok"@),
                ),
            )
        }),
{
    let n = s.notifiers.len() as int;
    lemma_without(s.notifiers, who, n);
    assert(s.notifiers.take(n) =~= s.notifiers);
}

/// A notification changes nothing but the events.
pub proof fn notifications_change_nothing_else(
    s: ControlState,
    event_type: Symbol,
    severity: IncidentSeverity,
    data: i128,
    n: int,
)
    ensures
        notified(s, event_type, severity, data, n) == (ControlState {
            events: notified(s, event_type, severity, data, n).events,
            ..s
        }),
    decreases n,
{
    if n > 0 {
        notifications_change_nothing_else(s, event_type, severity, data, n - 1);
    }
}

} // verus!
