//! The emergency controls contract.

use vstd::prelude::*;

use crate::audit::records::AuditEventType;
use crate::base::address::Address;
use crate::base::arith::{checked_mul_div, fits, lemma_quot_bounds, quot};
use crate::base::effect::effect;
use crate::base::symbol::{sym, symbol_short, Symbol};
use crate::base::table::value_or;
use crate::base::vecs::{copy_vec, has_address};
use crate::emergency::records::{
    EmergencyState, Error, IncidentActionType, IncidentRecord, IncidentSeverity, RateLimitConfig,
    RateLimitCounter, BPS_DENOM, DEFAULT_CIRCUIT_THRESHOLD_BPS,
    DEFAULT_EMERGENCY_WITHDRAWAL_FEE_BPS, DEFAULT_LOCK_PERIOD, DEFAULT_MAX_TRADE_AMOUNT,
    MAX_NOTIFIERS,
};
use crate::emergency::state::{ControlState, EmergencyEnv, EmergencyEvent};

verus! {

/// EmergencyControls contract for AstraPort
/// Provides circuit breakers, pause mechanisms, emergency withdrawals,
/// safe mode, rate limiting, and incident logging for portfolio safety.
pub struct EmergencyControls;

// ---------------------------------------------------------------------------
// What the calls do
// ---------------------------------------------------------------------------

/// What initializing does.
pub open spec fn initialized(s: ControlState, admin: Address) -> Result<
    (ControlState, Symbol),
    Error,
> {
    if s.admin is Some {
        Err(Error::AlreadyInitialized)
    } else {
        Ok(
            (
                ControlState {
                    admin: Some(admin),
                    circuit_threshold: DEFAULT_CIRCUIT_THRESHOLD_BPS,
                    max_trade: DEFAULT_MAX_TRADE_AMOUNT,
                    withdrawal_fee: DEFAULT_EMERGENCY_WITHDRAWAL_FEE_BPS,
                    lock_period: DEFAULT_LOCK_PERIOD,
                    ..s
                }.emit(
                    EmergencyEvent::Initialized {
                        admin,
                        threshold: DEFAULT_CIRCUIT_THRESHOLD_BPS,
                        max_trade: DEFAULT_MAX_TRADE_AMOUNT,
                    },
                ),
                sym("ok"@),
            ),
        )
    }
}

/// What configuring the audit-log sink does.
pub open spec fn sink_set(s: ControlState, sink: Address) -> Result<(ControlState, Symbol), Error> {
    match s.admin {
        None => Err(Error::NotInitialized),
        Some(admin) => Ok(
            (
                ControlState { audit_sink: Some(sink), ..s }.noted(
                    IncidentActionType::ConfigUpdated,
                    IncidentSeverity::Medium,
                    admin,
                    sym("AUD_S"@),
                    0,
                ),
                sym("ok"@),
            ),
        ),
    }
}

/// The caller may pause and enter safe mode.
pub open spec fn may_stop(s: ControlState, caller: Address) -> bool {
    s.admin == Some(caller) || s.guardian == Some(caller)
}

/// What pausing does.
pub open spec fn paused(s: ControlState, caller: Address, reason: Symbol) -> Result<
    (ControlState, Symbol),
    Error,
> {
    if s.admin is None {
        Err(Error::NotInitialized)
    } else if !may_stop(s, caller) {
        Err(Error::AdminRequired)
    } else if s.paused {
        Err(Error::AlreadyPaused)
    } else {
        Ok(
            (
                ControlState { paused: true, pause_reason: reason, ..s }.noted(
                    IncidentActionType::Pause,
                    IncidentSeverity::Critical,
                    caller,
                    reason,
                    0,
                ).audited(
                    caller,
                    AuditEventType::EmergencyPause,
                    sym("ok"@),
                    "pause_activated"@,
                ).emit(EmergencyEvent::Paused { caller, reason }),
                sym("ok"@),
            ),
        )
    }
}

/// What resuming does.
pub open spec fn unpaused(s: ControlState, reason: Symbol) -> Result<(ControlState, Symbol), Error> {
    match s.admin {
        None => Err(Error::NotInitialized),
        Some(admin) => if !s.paused {
            Err(Error::NotPaused)
        } else {
            Ok(
                (
                    ControlState { paused: false, pause_reason: sym("none"@), ..s }.noted(
                        IncidentActionType::Unpause,
                        IncidentSeverity::High,
                        admin,
                        reason,
                        0,
                    ).audited(
                        admin,
                        AuditEventType::EmergencyPause,
                        sym("ok"@),
                        "pause_deactivated"@,
                    ).emit(EmergencyEvent::Unpaused { admin, reason }),
                    sym("ok"@),
                ),
            )
        },
    }
}

/// The penalty of an emergency withdrawal.
pub open spec fn penalty_of(s: ControlState, amount: i128) -> int {
    quot(amount * s.withdrawal_fee, BPS_DENOM as int)
}

/// What an emergency withdrawal does; it gives what is left after the penalty.
pub open spec fn withdrawn(s: ControlState, user: Address, amount: i128) -> Result<
    (ControlState, i128),
    Error,
> {
    if amount <= 0 {
        Err(Error::InvalidConfiguration)
    } else if !fits(amount * s.withdrawal_fee) {
        Err(Error::ArithmeticOverflow)
    } else {
        let penalty = penalty_of(s, amount) as i128;
        let net_amount = (amount - penalty) as i128;
        Ok(
            (
                s.noted(
                    IncidentActionType::EmergencyWithdrawal,
                    IncidentSeverity::High,
                    user,
                    sym("EM_WD"@),
                    amount,
                ).audited(
                    user,
                    AuditEventType::EmergencyUnstake,
                    sym("ok"@),
                    "emergency_withdrawal"@,
                ).emit(EmergencyEvent::Withdrawn { user, amount, penalty, net_amount }),
                net_amount,
            ),
        )
    }
}

/// What setting the penalty does.
pub open spec fn withdrawal_fee_set(s: ControlState, fee_bps: i128) -> Result<
    (ControlState, Symbol),
    Error,
> {
    match s.admin {
        None => Err(Error::NotInitialized),
        Some(admin) => if !(0 <= fee_bps <= BPS_DENOM) {
            Err(Error::InvalidConfiguration)
        } else {
            Ok(
                (
                    ControlState { withdrawal_fee: fee_bps, ..s }.noted(
                        IncidentActionType::ConfigUpdated,
                        IncidentSeverity::Medium,
                        admin,
                        sym("EM_WF"@),
                        fee_bps,
                    ),
                    sym("ok"@),
                ),
            )
        },
    }
}

/// The price change trips the circuit breaker.
pub open spec fn trips(s: ControlState, price_change_bps: i128) -> bool {
    (if price_change_bps < 0 {
        -price_change_bps
    } else {
        price_change_bps as int
    }) >= s.circuit_threshold
}

/// What reporting a price change does: where it is large enough, in either
/// direction, the circuit breaker trips and operations are paused.
pub open spec fn price_change_reported(
    s: ControlState,
    caller: Address,
    price_change_bps: i128,
) -> ControlState {
    if trips(s, price_change_bps) {
        ControlState {
            circuit_tripped: true,
            paused: true,
            pause_reason: sym("CIRCUIT"@),
            ..s
        }.noted(
            IncidentActionType::CircuitBreakerTrip,
            IncidentSeverity::Critical,
            caller,
            sym("CB_TRIP"@),
            price_change_bps,
        ).emit(
            EmergencyEvent::BreakerTripped {
                caller,
                change_bps: price_change_bps,
                threshold: s.circuit_threshold,
            },
        )
    } else {
        s
    }
}

/// What resetting the circuit breaker does.
pub open spec fn breaker_reset(s: ControlState, reason: Symbol) -> Result<
    (ControlState, Symbol),
    Error,
> {
    match s.admin {
        None => Err(Error::NotInitialized),
        Some(admin) => if !s.circuit_tripped {
            Err(Error::CircuitBreakerTripped)
        } else {
            Ok(
                (
                    ControlState { circuit_tripped: false, ..s }.noted(
                        IncidentActionType::CircuitBreakerReset,
                        IncidentSeverity::High,
                        admin,
                        reason,
                        0,
                    ).emit(EmergencyEvent::BreakerReset { admin, reason }),
                    sym("ok"@),
                ),
            )
        },
    }
}

/// What setting the threshold does.
pub open spec fn threshold_set(s: ControlState, threshold_bps: i128) -> Result<
    (ControlState, Symbol),
    Error,
> {
    match s.admin {
        None => Err(Error::NotInitialized),
        Some(admin) => if !(0 < threshold_bps <= BPS_DENOM) {
            Err(Error::InvalidConfiguration)
        } else {
            Ok(
                (
                    ControlState { circuit_threshold: threshold_bps, ..s }.noted(
                        IncidentActionType::ThresholdUpdated,
                        IncidentSeverity::Medium,
                        admin,
                        sym("CB_TH"@),
                        threshold_bps,
                    ),
                    sym("ok"@),
                ),
            )
        },
    }
}

/// What setting the maximum trade size does.
pub open spec fn max_trade_set(s: ControlState, max_amount: i128) -> Result<
    (ControlState, Symbol),
    Error,
> {
    match s.admin {
        None => Err(Error::NotInitialized),
        Some(admin) => if max_amount <= 0 {
            Err(Error::InvalidConfiguration)
        } else {
            Ok(
                (
                    ControlState { max_trade: max_amount, ..s }.noted(
                        IncidentActionType::MaxTradeUpdated,
                        IncidentSeverity::Medium,
                        admin,
                        sym("MX_TR"@),
                        max_amount,
                    ).emit(EmergencyEvent::MaxTradeSet { admin, max_trade: max_amount }),
                    sym("ok"@),
                ),
            )
        },
    }
}

/// What entering safe mode does.
pub open spec fn safe_mode_entered(s: ControlState, caller: Address, reason: Symbol) -> Result<
    (ControlState, Symbol),
    Error,
> {
    if s.admin is None {
        Err(Error::NotInitialized)
    } else if !may_stop(s, caller) {
        Err(Error::AdminRequired)
    } else if s.safe_mode {
        Err(Error::AlreadyInSafeMode)
    } else {
        Ok(
            (
                ControlState { safe_mode: true, safe_mode_reason: reason, ..s }.noted(
                    IncidentActionType::SafeModeEnter,
                    IncidentSeverity::High,
                    caller,
                    reason,
                    0,
                ).emit(EmergencyEvent::SafeModeEntered { caller, reason }),
                sym("ok"@),
            ),
        )
    }
}

/// What leaving safe mode does.
pub open spec fn safe_mode_left(s: ControlState, reason: Symbol) -> Result<
    (ControlState, Symbol),
    Error,
> {
    match s.admin {
        None => Err(Error::NotInitialized),
        Some(admin) => if !s.safe_mode {
            Err(Error::NotInSafeMode)
        } else {
            Ok(
                (
                    ControlState { safe_mode: false, safe_mode_reason: sym("none"@), ..s }.noted(
                        IncidentActionType::SafeModeExit,
                        IncidentSeverity::High,
                        admin,
                        reason,
                        0,
                    ).emit(EmergencyEvent::SafeModeExited { admin, reason }),
                    sym("ok"@),
                ),
            )
        },
    }
}

/// How severe it is that an operation is blocked, and by what, if it is.
pub open spec fn block(
    s: ControlState,
    allow_during_pause: bool,
    allow_during_safe_mode: bool,
) -> Option<(IncidentSeverity, Symbol)> {
    if s.paused && !allow_during_pause {
        Some((IncidentSeverity::Medium, sym("OP_BLK"@)))
    } else if s.safe_mode && !allow_during_safe_mode {
        Some((IncidentSeverity::Medium, sym("OP_SFBL"@)))
    } else if s.circuit_tripped && !allow_during_pause {
        Some((IncidentSeverity::High, sym("CB_BLCK"@)))
    } else {
        None
    }
}

/// What validating an operation does: a blocked one is noted, on behalf of the admin.
pub open spec fn validated(
    s: ControlState,
    allow_during_pause: bool,
    allow_during_safe_mode: bool,
) -> Result<(ControlState, bool), Error> {
    match block(s, allow_during_pause, allow_during_safe_mode) {
        None => Ok((s, true)),
        Some((severity, description)) => match s.admin {
            None => Err(Error::NotInitialized),
            Some(admin) => Ok(
                (
                    s.noted(
                        IncidentActionType::OperationBlocked,
                        severity,
                        admin,
                        description,
                        0,
                    ),
                    false,
                ),
            ),
        },
    }
}

/// The position of the first rate limit from `from` on for the operation, or the length.
pub open spec fn limit_index(limits: Seq<RateLimitConfig>, operation: Symbol, from: int) -> int
    decreases limits.len() - from,
{
    if from >= limits.len() {
        limits.len() as int
    } else if limits[from].operation == operation {
        from
    } else {
        limit_index(limits, operation, from + 1)
    }
}

/// The rate limit of the operation.
pub open spec fn limit_of(s: ControlState, operation: Symbol) -> Option<RateLimitConfig> {
    let i = limit_index(s.rate_limits, operation, 0);
    if i < s.rate_limits.len() {
        Some(s.rate_limits[i])
    } else {
        None
    }
}

/// The rate limits with one more; it takes the place of one for the same operation.
pub open spec fn limits_with(limits: Seq<RateLimitConfig>, c: RateLimitConfig) -> Seq<
    RateLimitConfig,
> {
    let i = limit_index(limits, c.operation, 0);
    if i < limits.len() {
        limits.update(i, c)
    } else {
        limits.push(c)
    }
}

/// What setting a rate limit does.
pub open spec fn rate_limit_set(s: ControlState, c: RateLimitConfig) -> Result<
    (ControlState, Symbol),
    Error,
> {
    match s.admin {
        None => Err(Error::NotInitialized),
        Some(admin) => if c.max_calls == 0 || c.window_seconds == 0 {
            Err(Error::InvalidConfiguration)
        } else {
            Ok(
                (
                    ControlState { rate_limits: limits_with(s.rate_limits, c), ..s }.noted(
                        IncidentActionType::RateLimitUpdated,
                        IncidentSeverity::Low,
                        admin,
                        sym("RT_UPD"@),
                        c.max_calls as i128,
                    ),
                    sym("ok"@),
                ),
            )
        },
    }
}

/// The counter of the operation.
pub open spec fn counter_of(s: ControlState, operation: Symbol) -> RateLimitCounter {
    value_or(
        s.rate_counters,
        operation,
        RateLimitCounter { operation, count: 0, window_start: 0 },
    )
}

/// The counter of the operation in the window of now: where the last window is
/// over, a new one begins.
pub open spec fn current_counter(
    s: ControlState,
    operation: Symbol,
    c: RateLimitConfig,
) -> RateLimitCounter {
    let k = counter_of(s, operation);
    if s.timestamp >= k.window_start + c.window_seconds {
        RateLimitCounter { count: 0, window_start: s.timestamp, ..k }
    } else {
        k
    }
}

/// What checking a rate limit does: a call within the limit is counted, one
/// beyond it is noted.
pub open spec fn rate_checked(s: ControlState, operation: Symbol) -> Result<
    (ControlState, bool),
    Error,
> {
    match limit_of(s, operation) {
        None => Ok((s, true)),
        Some(c) => {
            let k = current_counter(s, operation, c);
            if k.count >= c.max_calls {
                match s.admin {
                    None => Err(Error::NotInitialized),
                    Some(admin) => Ok(
                        (
                            s.noted(
                                IncidentActionType::OperationBlocked,
                                IncidentSeverity::Medium,
                                admin,
                                sym("RT_BLCK"@),
                                k.count as i128,
                            ),
                            false,
                        ),
                    ),
                }
            } else {
                Ok(
                    (
                        ControlState {
                            rate_counters: s.rate_counters.insert(
                                operation,
                                RateLimitCounter { count: (k.count + 1) as u32, ..k },
                            ),
                            ..s
                        },
                        true,
                    ),
                )
            }
        },
    }
}

/// What setting the guardian does.
pub open spec fn guardian_set(s: ControlState, guardian: Address) -> Result<
    (ControlState, Symbol),
    Error,
> {
    match s.admin {
        None => Err(Error::NotInitialized),
        Some(admin) => Ok(
            (
                ControlState { guardian: Some(guardian), ..s }.noted(
                    IncidentActionType::ConfigUpdated,
                    IncidentSeverity::Medium,
                    admin,
                    sym("GRD_SET"@),
                    0,
                ),
                sym("ok"@),
            ),
        ),
    }
}

/// What setting the lock period does.
pub open spec fn lock_period_set(s: ControlState, period: u64) -> Result<
    (ControlState, Symbol),
    Error,
> {
    if s.admin is None {
        Err(Error::NotInitialized)
    } else {
        Ok((ControlState { lock_period: period, ..s }, sym("ok"@)))
    }
}

/// What registering a notifier does.
pub open spec fn notifier_added(s: ControlState, notifier: Address) -> Result<
    (ControlState, Symbol),
    Error,
> {
    if s.admin is None {
        Err(Error::NotInitialized)
    } else if s.notifiers.len() >= MAX_NOTIFIERS {
        Err(Error::TooManyNotifiers)
    } else if s.notifiers.contains(notifier) {
        Ok((s, sym("ok"@)))
    } else {
        Ok((ControlState { notifiers: s.notifiers.push(notifier), ..s }, sym("ok"@)))
    }
}

/// The first `n` addresses without one of them.
pub open spec fn without(list: Seq<Address>, a: Address, n: int) -> Seq<Address>
    decreases n,
{
    if n <= 0 {
        Seq::empty()
    } else if list[n - 1] == a {
        without(list, a, n - 1)
    } else {
        without(list, a, n - 1).push(list[n - 1])
    }
}

/// What removing a notifier does.
pub open spec fn notifier_removed(s: ControlState, notifier: Address) -> Result<
    (ControlState, Symbol),
    Error,
> {
    if s.admin is None {
        Err(Error::NotInitialized)
    } else {
        Ok(
            (
                ControlState {
                    notifiers: without(s.notifiers, notifier, s.notifiers.len() as int),
                    ..s
                },
                sym("ok"@),
            ),
        )
    }
}

/// The state after the first `n` notifiers were notified.
pub open spec fn notified(
    s: ControlState,
    event_type: Symbol,
    severity: IncidentSeverity,
    data: i128,
    n: int,
) -> ControlState
    decreases n,
{
    if n <= 0 {
        s
    } else {
        notified(s, event_type, severity, data, n - 1).emit(
            EmergencyEvent::Notified { notifier: s.notifiers[n - 1], event_type, severity, data },
        )
    }
}

/// What clearing the incident log does.
pub open spec fn log_cleared(s: ControlState) -> Result<(ControlState, Symbol), Error> {
    if s.admin is None {
        Err(Error::NotInitialized)
    } else {
        Ok((ControlState { incidents: Seq::empty(), ..s }, sym("ok"@)))
    }
}

/// The newest `max` incidents, or all where `max` is 0.
pub open spec fn newest_incidents(s: ControlState, max: u32) -> Seq<IncidentRecord> {
    if max == 0 || s.incidents.len() <= max {
        s.incidents
    } else {
        s.incidents.skip(s.incidents.len() - max)
    }
}

/// What handing the contract over does.
pub open spec fn admin_transferred(s: ControlState, new_admin: Address) -> Result<
    (ControlState, Symbol),
    Error,
> {
    match s.admin {
        None => Err(Error::NotInitialized),
        Some(admin) => Ok(
            (
                ControlState { admin: Some(new_admin), ..s }.noted(
                    IncidentActionType::ConfigUpdated,
                    IncidentSeverity::Critical,
                    admin,
                    sym("ADM_TRF"@),
                    0,
                ),
                sym("ok"@),
            ),
        ),
    }
}

impl EmergencyControls {
    // -----------------------------------------------------------------------
    // Initialization
    // -----------------------------------------------------------------------

    /// Initialize the emergency controls contract.
    pub fn initialize(env: &mut EmergencyEnv, admin: Address) -> (r: Result<Symbol, Error>)
        ensures
            effect(initialized(old(env)@, admin), r, old(env)@, final(env)@),
            old(env)@.wf() ==> final(env)@.wf(),
    {
        if env.admin.is_some() {
            return Err(Error::AlreadyInitialized);
        }
        env.admin = Some(admin);
        env.circuit_threshold = DEFAULT_CIRCUIT_THRESHOLD_BPS;
        env.max_trade = DEFAULT_MAX_TRADE_AMOUNT;
        env.withdrawal_fee = DEFAULT_EMERGENCY_WITHDRAWAL_FEE_BPS;
        env.lock_period = DEFAULT_LOCK_PERIOD;
        env.publish(
            EmergencyEvent::Initialized {
                admin,
                threshold: DEFAULT_CIRCUIT_THRESHOLD_BPS,
                max_trade: DEFAULT_MAX_TRADE_AMOUNT,
            },
        );
        assert(env@ =~= initialized(old(env)@, admin)->Ok_0.0);
        Ok(symbol_short("ok"))
    }

    fn require_admin(env: &EmergencyEnv) -> (r: Result<Address, Error>)
        requires
            env@.admin_signed(),
        ensures
            r == (match env@.admin {
                Some(a) => Ok(a),
                None => Err(Error::NotInitialized),
            }),
    {
        Self::get_admin(env)
    }

    /// Configure the audit-log sink address. Admin-only.
    pub fn set_audit_sink(env: &mut EmergencyEnv, sink: Address) -> (r: Result<Symbol, Error>)
        requires
            old(env)@.admin_signed(),
        ensures
            effect(sink_set(old(env)@, sink), r, old(env)@, final(env)@),
            old(env)@.wf() ==> final(env)@.wf(),
    {
        let admin: Address = match Self::require_admin(env) {
            Ok(a) => a,
            Err(e) => return Err(e),
        };
        env.audit_sink = Some(sink);
        env.append_incident(
            IncidentActionType::ConfigUpdated,
            IncidentSeverity::Medium,
            admin,
            symbol_short("AUD_S"),
            0,
        );
        assert(env@ =~= sink_set(old(env)@, sink)->Ok_0.0);
        Ok(symbol_short("ok"))
    }

    /// Read the audit-log sink address, if configured.
    pub fn get_audit_sink(env: &EmergencyEnv) -> (r: Option<Address>)
        ensures
            r == env@.audit_sink,
    {
        env.audit_sink
    }

    // -----------------------------------------------------------------------
    // Pause / Resume
    // -----------------------------------------------------------------------

    fn check_may_stop(env: &EmergencyEnv, caller: Address) -> (r: Result<(), Error>)
        ensures
            r == (if env@.admin is None {
                Err(Error::NotInitialized)
            } else if !may_stop(env@, caller) {
                Err(Error::AdminRequired)
            } else {
                Ok::<(), Error>(())
            }),
    {
        let admin: Address = match env.admin {
            Some(a) => a,
            None => return Err(Error::NotInitialized),
        };
        let is_guardian: bool = match env.guardian {
            Some(g) => g == caller,
            None => false,
        };
        if caller != admin && !is_guardian {
            return Err(Error::AdminRequired);
        }
        Ok(())
    }

    /// Pause the contract. Prevents new transactions but allows withdrawals.
    /// Can be called by admin or guardian.
    pub fn pause(env: &mut EmergencyEnv, caller: Address, reason: Symbol) -> (r: Result<
        Symbol,
        Error,
    >)
        requires
            old(env)@.authorized(caller),
        ensures
            effect(paused(old(env)@, caller, reason), r, old(env)@, final(env)@),
            old(env)@.wf() ==> final(env)@.wf(),
    {
        match Self::check_may_stop(env, caller) {
            Ok(()) => {},
            Err(e) => return Err(e),
        }
        if env.paused {
            return Err(Error::AlreadyPaused);
        }
        env.paused = true;
        env.pause_reason = reason;
        env.append_incident(
            IncidentActionType::Pause,
            IncidentSeverity::Critical,
            caller,
            reason,
            0,
        );
        env.log_audit_if_configured(
            caller,
            AuditEventType::EmergencyPause,
            symbol_short("ok"),
            "pause_activated",
        );
        env.publish(EmergencyEvent::Paused { caller, reason });
        assert(env@ =~= paused(old(env)@, caller, reason)->Ok_0.0);
        Ok(symbol_short("ok"))
    }

    /// Resume operations after a pause. Only admin can unpause.
    pub fn unpause(env: &mut EmergencyEnv, reason: Symbol) -> (r: Result<Symbol, Error>)
        requires
            old(env)@.admin_signed(),
        ensures
            effect(unpaused(old(env)@, reason), r, old(env)@, final(env)@),
            old(env)@.wf() ==> final(env)@.wf(),
    {
        let admin: Address = match Self::require_admin(env) {
            Ok(a) => a,
            Err(e) => return Err(e),
        };
        if !env.paused {
            return Err(Error::NotPaused);
        }
        env.paused = false;
        env.pause_reason = symbol_short("none");
        env.append_incident(
            IncidentActionType::Unpause,
            IncidentSeverity::High,
            admin,
            reason,
            0,
        );
        env.log_audit_if_configured(
            admin,
            AuditEventType::EmergencyPause,
            symbol_short("ok"),
            "pause_deactivated",
        );
        env.publish(EmergencyEvent::Unpaused { admin, reason });
        assert(env@ =~= unpaused(old(env)@, reason)->Ok_0.0);
        Ok(symbol_short("ok"))
    }

    /// Check if the contract is currently paused.
    pub fn is_paused(env: &EmergencyEnv) -> (b: bool)
        ensures
            b == env@.paused,
    {
        env.paused
    }

    /// Get the reason for the current pause.
    pub fn get_pause_reason(env: &EmergencyEnv) -> (s: Symbol)
        ensures
            s == env@.pause_reason,
    {
        env.pause_reason
    }

    // -----------------------------------------------------------------------
    // Emergency Withdrawal
    // -----------------------------------------------------------------------

    /// Execute an emergency withdrawal bypassing normal lock periods.
    /// Applies a penalty fee as configured. Returns net amount after penalty.
    pub fn emergency_withdrawal(env: &mut EmergencyEnv, user: Address, amount: i128) -> (r: Result<
        i128,
        Error,
    >)
        requires
            old(env)@.authorized(user),
            old(env)@.wf(),
        ensures
            effect(withdrawn(old(env)@, user, amount), r, old(env)@, final(env)@),
            final(env)@.wf(),
    {
        if amount <= 0 {
            return Err(Error::InvalidConfiguration);
        }
        proof {
            lemma_penalty_bounds(env@, amount);
        }
        let penalty: i128 = match checked_mul_div(amount, env.withdrawal_fee, BPS_DENOM) {
            Some(x) => x,
            None => return Err(Error::ArithmeticOverflow),
        };
        let net_amount: i128 = amount - penalty;
        env.append_incident(
            IncidentActionType::EmergencyWithdrawal,
            IncidentSeverity::High,
            user,
            symbol_short("EM_WD"),
            amount,
        );
        env.log_audit_if_configured(
            user,
            AuditEventType::EmergencyUnstake,
            symbol_short("ok"),
            "emergency_withdrawal",
        );
        env.publish(EmergencyEvent::Withdrawn { user, amount, penalty, net_amount });
        assert(env@ =~= withdrawn(old(env)@, user, amount)->Ok_0.0);
        Ok(net_amount)
    }

    /// Get the emergency withdrawal penalty fee in basis points.
    pub fn get_emergency_withdrawal_fee(env: &EmergencyEnv) -> (x: i128)
        ensures
            x == env@.withdrawal_fee,
    {
        env.withdrawal_fee
    }

    /// Set the emergency withdrawal penalty fee (admin only).
    pub fn set_emergency_withdrawal_fee(env: &mut EmergencyEnv, fee_bps: i128) -> (r: Result<
        Symbol,
        Error,
    >)
        requires
            old(env)@.admin_signed(),
        ensures
            effect(withdrawal_fee_set(old(env)@, fee_bps), r, old(env)@, final(env)@),
            old(env)@.wf() ==> final(env)@.wf(),
    {
        let admin: Address = match Self::require_admin(env) {
            Ok(a) => a,
            Err(e) => return Err(e),
        };
        if fee_bps < 0 || fee_bps > BPS_DENOM {
            return Err(Error::InvalidConfiguration);
        }
        env.withdrawal_fee = fee_bps;
        env.append_incident(
            IncidentActionType::ConfigUpdated,
            IncidentSeverity::Medium,
            admin,
            symbol_short("EM_WF"),
            fee_bps,
        );
        assert(env@ =~= withdrawal_fee_set(old(env)@, fee_bps)->Ok_0.0);
        Ok(symbol_short("ok"))
    }

    // -----------------------------------------------------------------------
    // Circuit Breaker
    // -----------------------------------------------------------------------

    /// Report a price change and trip the circuit breaker if it reaches the
    /// threshold. Returns whether the circuit breaker was tripped.
    pub fn report_price_change(
        env: &mut EmergencyEnv,
        caller: Address,
        price_change_bps: i128,
    ) -> (b: bool)
        requires
            old(env)@.authorized(caller),
            price_change_bps != i128::MIN,
        ensures
            b == (price_change_bps >= old(env)@.circuit_threshold || -price_change_bps
                >= old(env)@.circuit_threshold),
            b == trips(old(env)@, price_change_bps),
            b ==> final(env)@.circuit_tripped && final(env)@.paused,
            !b ==> final(env)@ == old(env)@,
            final(env)@ == price_change_reported(old(env)@, caller, price_change_bps),
            old(env)@.wf() ==> final(env)@.wf(),
    {
        let threshold: i128 = env.circuit_threshold;
        let abs_change: i128 = if price_change_bps < 0 {
            -price_change_bps
        } else {
            price_change_bps
        };
        if abs_change >= threshold {
            env.circuit_tripped = true;
            env.paused = true;
            env.pause_reason = symbol_short("CIRCUIT");
            env.append_incident(
                IncidentActionType::CircuitBreakerTrip,
                IncidentSeverity::Critical,
                caller,
                symbol_short("CB_TRIP"),
                price_change_bps,
            );
            env.publish(
                EmergencyEvent::BreakerTripped { caller, change_bps: price_change_bps, threshold },
            );
            assert(env@ =~= price_change_reported(old(env)@, caller, price_change_bps));
            true
        } else {
            false
        }
    }

    /// Check if the circuit breaker is tripped.
    pub fn is_circuit_breaker_tripped(env: &EmergencyEnv) -> (b: bool)
        ensures
            b == env@.circuit_tripped,
    {
        env.circuit_tripped
    }

    /// Reset the circuit breaker (admin only).
    pub fn reset_circuit_breaker(env: &mut EmergencyEnv, reason: Symbol) -> (r: Result<
        Symbol,
        Error,
    >)
        requires
            old(env)@.admin_signed(),
        ensures
            effect(breaker_reset(old(env)@, reason), r, old(env)@, final(env)@),
            old(env)@.wf() ==> final(env)@.wf(),
    {
        let admin: Address = match Self::require_admin(env) {
            Ok(a) => a,
            Err(e) => return Err(e),
        };
        if !env.circuit_tripped {
            return Err(Error::CircuitBreakerTripped);
        }
        env.circuit_tripped = false;
        env.append_incident(
            IncidentActionType::CircuitBreakerReset,
            IncidentSeverity::High,
            admin,
            reason,
            0,
        );
        env.publish(EmergencyEvent::BreakerReset { admin, reason });
        assert(env@ =~= breaker_reset(old(env)@, reason)->Ok_0.0);
        Ok(symbol_short("ok"))
    }

    /// Get the current circuit breaker threshold in basis points.
    pub fn get_circuit_breaker_threshold(env: &EmergencyEnv) -> (x: i128)
        ensures
            x == env@.circuit_threshold,
    {
        env.circuit_threshold
    }

    /// Set the circuit breaker threshold (admin only).
    pub fn set_circuit_breaker_threshold(env: &mut EmergencyEnv, threshold_bps: i128) -> (r: Result<
        Symbol,
        Error,
    >)
        requires
            old(env)@.admin_signed(),
        ensures
            effect(threshold_set(old(env)@, threshold_bps), r, old(env)@, final(env)@),
            old(env)@.wf() ==> final(env)@.wf(),
    {
        let admin: Address = match Self::require_admin(env) {
            Ok(a) => a,
            Err(e) => return Err(e),
        };
        if threshold_bps <= 0 || threshold_bps > BPS_DENOM {
            return Err(Error::InvalidConfiguration);
        }
        env.circuit_threshold = threshold_bps;
        env.append_incident(
            IncidentActionType::ThresholdUpdated,
            IncidentSeverity::Medium,
            admin,
            symbol_short("CB_TH"),
            threshold_bps,
        );
        assert(env@ =~= threshold_set(old(env)@, threshold_bps)->Ok_0.0);
        Ok(symbol_short("ok"))
    }

    // -----------------------------------------------------------------------
    // Trade Size Limits
    // -----------------------------------------------------------------------

    /// Validate that a trade amount is within the configured maximum.
    pub fn validate_trade_size(env: &EmergencyEnv, amount: i128) -> (r: Result<i128, Error>)
        ensures
            r == (if amount > env@.max_trade {
                Err(Error::TradeSizeExceedsLimit)
            } else {
                Ok(amount)
            }),
    {
        if amount > env.max_trade {
            return Err(Error::TradeSizeExceedsLimit);
        }
        Ok(amount)
    }

    /// Get the current maximum trade size.
    pub fn get_max_trade_size(env: &EmergencyEnv) -> (x: i128)
        ensures
            x == env@.max_trade,
    {
        env.max_trade
    }

    /// Set the maximum trade size (admin only).
    pub fn set_max_trade_size(env: &mut EmergencyEnv, max_amount: i128) -> (r: Result<
        Symbol,
        Error,
    >)
        requires
            old(env)@.admin_signed(),
        ensures
            effect(max_trade_set(old(env)@, max_amount), r, old(env)@, final(env)@),
            old(env)@.wf() ==> final(env)@.wf(),
    {
        let admin: Address = match Self::require_admin(env) {
            Ok(a) => a,
            Err(e) => return Err(e),
        };
        if max_amount <= 0 {
            return Err(Error::InvalidConfiguration);
        }
        env.max_trade = max_amount;
        env.append_incident(
            IncidentActionType::MaxTradeUpdated,
            IncidentSeverity::Medium,
            admin,
            symbol_short("MX_TR"),
            max_amount,
        );
        env.publish(EmergencyEvent::MaxTradeSet { admin, max_trade: max_amount });
        assert(env@ =~= max_trade_set(old(env)@, max_amount)->Ok_0.0);
        Ok(symbol_short("ok"))
    }

    // -----------------------------------------------------------------------
    // Safe Mode
    // -----------------------------------------------------------------------

    /// Enter safe mode which reduces risk by disabling automated operations.
    /// Can be called by admin or guardian.
    pub fn enter_safe_mode(env: &mut EmergencyEnv, caller: Address, reason: Symbol) -> (r: Result<
        Symbol,
        Error,
    >)
        requires
            old(env)@.authorized(caller),
        ensures
            effect(safe_mode_entered(old(env)@, caller, reason), r, old(env)@, final(env)@),
            old(env)@.wf() ==> final(env)@.wf(),
    {
        match Self::check_may_stop(env, caller) {
            Ok(()) => {},
            Err(e) => return Err(e),
        }
        if env.safe_mode {
            return Err(Error::AlreadyInSafeMode);
        }
        env.safe_mode = true;
        env.safe_mode_reason = reason;
        env.append_incident(
            IncidentActionType::SafeModeEnter,
            IncidentSeverity::High,
            caller,
            reason,
            0,
        );
        env.publish(EmergencyEvent::SafeModeEntered { caller, reason });
        assert(env@ =~= safe_mode_entered(old(env)@, caller, reason)->Ok_0.0);
        Ok(symbol_short("ok"))
    }

    /// Exit safe mode and resume normal operations. Only admin can exit.
    pub fn exit_safe_mode(env: &mut EmergencyEnv, reason: Symbol) -> (r: Result<Symbol, Error>)
        requires
            old(env)@.admin_signed(),
        ensures
            effect(safe_mode_left(old(env)@, reason), r, old(env)@, final(env)@),
            old(env)@.wf() ==> final(env)@.wf(),
    {
        let admin: Address = match Self::require_admin(env) {
            Ok(a) => a,
            Err(e) => return Err(e),
        };
        if !env.safe_mode {
            return Err(Error::NotInSafeMode);
        }
        env.safe_mode = false;
        env.safe_mode_reason = symbol_short("none");
        env.append_incident(
            IncidentActionType::SafeModeExit,
            IncidentSeverity::High,
            admin,
            reason,
            0,
        );
        env.publish(EmergencyEvent::SafeModeExited { admin, reason });
        assert(env@ =~= safe_mode_left(old(env)@, reason)->Ok_0.0);
        Ok(symbol_short("ok"))
    }

    /// Check if the system is in safe mode.
    pub fn is_safe_mode(env: &EmergencyEnv) -> (b: bool)
        ensures
            b == env@.safe_mode,
    {
        env.safe_mode
    }

    /// Get the reason for the current safe mode.
    pub fn get_safe_mode_reason(env: &EmergencyEnv) -> (s: Symbol)
        ensures
            s == env@.safe_mode_reason,
    {
        env.safe_mode_reason
    }

    /// Validate that an operation is allowed in the current system state.
    /// Checks pause, safe mode, and circuit breaker status.
    pub fn validate_operation(
        env: &mut EmergencyEnv,
        _operation: Symbol,
        allow_during_pause: bool,
        allow_during_safe_mode: bool,
    ) -> (r: Result<bool, Error>)
        ensures
            effect(
                validated(old(env)@, allow_during_pause, allow_during_safe_mode),
                r,
                old(env)@,
                final(env)@,
            ),
            old(env)@.wf() ==> final(env)@.wf(),
    {
        let (severity, description): (IncidentSeverity, Symbol) = if env.paused
            && !allow_during_pause {
            (IncidentSeverity::Medium, symbol_short("OP_BLK"))
        } else if env.safe_mode && !allow_during_safe_mode {
            (IncidentSeverity::Medium, symbol_short("OP_SFBL"))
        } else if env.circuit_tripped && !allow_during_pause {
            (IncidentSeverity::High, symbol_short("CB_BLCK"))
        } else {
            return Ok(true);
        };
        let admin: Address = match Self::get_admin(env) {
            Ok(a) => a,
            Err(e) => return Err(e),
        };
        env.append_incident(
            IncidentActionType::OperationBlocked,
            severity,
            admin,
            description,
            0,
        );
        Ok(false)
    }

    // -----------------------------------------------------------------------
    // Rate Limiting
    // -----------------------------------------------------------------------

    fn find_limit(env: &EmergencyEnv, operation: Symbol) -> (i: usize)
        ensures
            i == limit_index(env@.rate_limits, operation, 0),
            i <= env@.rate_limits.len(),
    {
        let mut i: usize = 0;
        while i < env.rate_limits.len() && env.rate_limits[i].operation != operation
            invariant
                i <= env@.rate_limits.len(),
                limit_index(env@.rate_limits, operation, i as int) == limit_index(
                    env@.rate_limits,
                    operation,
                    0,
                ),
            decreases env@.rate_limits.len() - i,
        {
            i += 1;
        }
        i
    }

    /// Set rate limit configuration for an operation (admin only).
    pub fn set_rate_limit(
        env: &mut EmergencyEnv,
        operation: Symbol,
        max_calls: u32,
        window_seconds: u64,
    ) -> (r: Result<Symbol, Error>)
        requires
            old(env)@.admin_signed(),
        ensures
            effect(
                rate_limit_set(
                    old(env)@,
                    RateLimitConfig { operation, max_calls, window_seconds },
                ),
                r,
                old(env)@,
                final(env)@,
            ),
            old(env)@.wf() ==> final(env)@.wf(),
    {
        let admin: Address = match Self::require_admin(env) {
            Ok(a) => a,
            Err(e) => return Err(e),
        };
        if max_calls == 0 || window_seconds == 0 {
            return Err(Error::InvalidConfiguration);
        }
        let config = RateLimitConfig { operation, max_calls, window_seconds };
        let i: usize = Self::find_limit(env, operation);
        if i < env.rate_limits.len() {
            env.rate_limits.set(i, config);
        } else {
            env.rate_limits.push(config);
        }
        assert(env@.rate_limits =~= limits_with(old(env)@.rate_limits, config));
        env.append_incident(
            IncidentActionType::RateLimitUpdated,
            IncidentSeverity::Low,
            admin,
            symbol_short("RT_UPD"),
            max_calls as i128,
        );
        assert(env@ =~= rate_limit_set(old(env)@, config)->Ok_0.0);
        Ok(symbol_short("ok"))
    }

    /// Check rate limit and increment counter if allowed.
    /// Returns true if the operation is within rate limits.
    pub fn check_rate_limit(env: &mut EmergencyEnv, operation: Symbol) -> (r: Result<bool, Error>)
        requires
            match limit_of(old(env)@, operation) {
                Some(c) => counter_of(old(env)@, operation).window_start + c.window_seconds
                    <= u64::MAX,
                None => true,
            },
        ensures
            effect(rate_checked(old(env)@, operation), r, old(env)@, final(env)@),
            old(env)@.wf() ==> final(env)@.wf(),
    {
        let now: u64 = env.timestamp;
        let config: RateLimitConfig = match Self::get_rate_limit_config(env, operation) {
            Some(c) => c,
            None => return Ok(true),
        };
        let mut counter: RateLimitCounter = Self::get_rate_counter(env, operation);
        if now >= counter.window_start + config.window_seconds {
            counter.count = 0;
            counter.window_start = now;
        }
        if counter.count >= config.max_calls {
            let admin: Address = match Self::get_admin(env) {
                Ok(a) => a,
                Err(e) => return Err(e),
            };
            env.append_incident(
                IncidentActionType::OperationBlocked,
                IncidentSeverity::Medium,
                admin,
                symbol_short("RT_BLCK"),
                counter.count as i128,
            );
            return Ok(false);
        }
        counter.count = counter.count + 1;
        env.rate_counters.set(operation, counter);
        assert(env@ =~= rate_checked(old(env)@, operation)->Ok_0.0);
        Ok(true)
    }

    fn get_rate_counter(env: &EmergencyEnv, operation: Symbol) -> (k: RateLimitCounter)
        ensures
            k == counter_of(env@, operation),
    {
        match env.rate_counters.copied(operation) {
            Some(k) => k,
            None => RateLimitCounter { operation, count: 0, window_start: 0 },
        }
    }

    /// Get the current rate limit config for an operation.
    pub fn get_rate_limit_config(env: &EmergencyEnv, operation: Symbol) -> (r: Option<
        RateLimitConfig,
    >)
        ensures
            r == limit_of(env@, operation),
    {
        let i: usize = Self::find_limit(env, operation);
        if i < env.rate_limits.len() {
            Some(env.rate_limits[i])
        } else {
            None
        }
    }

    /// Get the current call count for a rate-limited operation.
    pub fn get_rate_limit_count(env: &EmergencyEnv, operation: Symbol) -> (n: u32)
        ensures
            n == counter_of(env@, operation).count,
    {
        Self::get_rate_counter(env, operation).count
    }

    // -----------------------------------------------------------------------
    // Guardian Management
    // -----------------------------------------------------------------------

    /// Set the guardian address (admin only).
    pub fn set_guardian(env: &mut EmergencyEnv, guardian: Address) -> (r: Result<Symbol, Error>)
        requires
            old(env)@.admin_signed(),
        ensures
            effect(guardian_set(old(env)@, guardian), r, old(env)@, final(env)@),
            old(env)@.wf() ==> final(env)@.wf(),
    {
        let admin: Address = match Self::require_admin(env) {
            Ok(a) => a,
            Err(e) => return Err(e),
        };
        env.guardian = Some(guardian);
        env.append_incident(
            IncidentActionType::ConfigUpdated,
            IncidentSeverity::Medium,
            admin,
            symbol_short("GRD_SET"),
            0,
        );
        assert(env@ =~= guardian_set(old(env)@, guardian)->Ok_0.0);
        Ok(symbol_short("ok"))
    }

    /// Get the guardian address.
    pub fn get_guardian(env: &EmergencyEnv) -> (r: Option<Address>)
        ensures
            r == env@.guardian,
    {
        env.guardian
    }

    // -----------------------------------------------------------------------
    // Lock Period
    // -----------------------------------------------------------------------

    /// Set the lock period for normal withdrawals (admin only).
    pub fn set_lock_period(env: &mut EmergencyEnv, period: u64) -> (r: Result<Symbol, Error>)
        requires
            old(env)@.admin_signed(),
        ensures
            effect(lock_period_set(old(env)@, period), r, old(env)@, final(env)@),
            old(env)@.wf() ==> final(env)@.wf(),
    {
        match Self::require_admin(env) {
            Ok(_) => {},
            Err(e) => return Err(e),
        }
        env.lock_period = period;
        assert(env@ =~= lock_period_set(old(env)@, period)->Ok_0.0);
        Ok(symbol_short("ok"))
    }

    /// Get the current lock period in seconds.
    pub fn get_lock_period(env: &EmergencyEnv) -> (x: u64)
        ensures
            x == env@.lock_period,
    {
        env.lock_period
    }

    /// Check if a lock period has expired given a stake timestamp.
    pub fn is_lock_expired(env: &EmergencyEnv, staked_at: u64) -> (b: bool)
        requires
            staked_at + env@.lock_period <= u64::MAX,
        ensures
            b == (env@.timestamp >= staked_at + env@.lock_period),
    {
        env.timestamp >= staked_at + env.lock_period
    }

    // -----------------------------------------------------------------------
    // Notification System
    // -----------------------------------------------------------------------

    /// Register a notifier address (admin only).
    pub fn add_notifier(env: &mut EmergencyEnv, notifier: Address) -> (r: Result<Symbol, Error>)
        requires
            old(env)@.admin_signed(),
        ensures
            effect(notifier_added(old(env)@, notifier), r, old(env)@, final(env)@),
            old(env)@.wf() ==> final(env)@.wf(),
    {
        match Self::require_admin(env) {
            Ok(_) => {},
            Err(e) => return Err(e),
        }
        if env.notifiers.len() >= MAX_NOTIFIERS as usize {
            return Err(Error::TooManyNotifiers);
        }
        if has_address(&env.notifiers, notifier) {
            return Ok(symbol_short("ok"));
        }
        env.notifiers.push(notifier);
        assert(env@ =~= notifier_added(old(env)@, notifier)->Ok_0.0);
        Ok(symbol_short("ok"))
    }

    /// Remove a notifier address (admin only).
    pub fn remove_notifier(env: &mut EmergencyEnv, notifier: Address) -> (r: Result<Symbol, Error>)
        requires
            old(env)@.admin_signed(),
        ensures
            effect(notifier_removed(old(env)@, notifier), r, old(env)@, final(env)@),
            old(env)@.wf() ==> final(env)@.wf(),
    {
        match Self::require_admin(env) {
            Ok(_) => {},
            Err(e) => return Err(e),
        }
        let mut left: Vec<Address> = Vec::new();
        let mut i: usize = 0;
        assert(left@ =~= without(env@.notifiers, notifier, 0));
        while i < env.notifiers.len()
            invariant
                i <= env@.notifiers.len(),
                env@ == old(env)@,
                left@ == without(env@.notifiers, notifier, i as int),
            decreases env@.notifiers.len() - i,
        {
            if env.notifiers[i] != notifier {
                left.push(env.notifiers[i]);
            }
            i += 1;
        }
        env.notifiers = left;
        proof {
            lemma_without(old(env)@.notifiers, notifier, old(env)@.notifiers.len() as int);
            assert(env@ =~= notifier_removed(old(env)@, notifier)->Ok_0.0);
        }
        Ok(symbol_short("ok"))
    }

    /// Get all registered notifier addresses.
    pub fn get_notifiers_list(env: &EmergencyEnv) -> (r: Vec<Address>)
        ensures
            r@ == env@.notifiers,
    {
        copy_vec(&env.notifiers)
    }

    /// Emit a notification event for all registered notifiers.
    pub fn notify(
        env: &mut EmergencyEnv,
        event_type: Symbol,
        severity: IncidentSeverity,
        data: i128,
    ) -> (count: u32)
        requires
            old(env)@.wf(),
        ensures
            count == old(env)@.notifiers.len(),
            final(env)@ == notified(
                old(env)@,
                event_type,
                severity,
                data,
                old(env)@.notifiers.len() as int,
            ),
            final(env)@.wf(),
    {
        let count: usize = env.notifiers.len();
        let mut i: usize = 0;
        while i < count
            invariant
                i <= count == old(env)@.notifiers.len(),
                env@.notifiers == old(env)@.notifiers,
                env@ == notified(old(env)@, event_type, severity, data, i as int),
                env@.wf(),
            decreases count - i,
        {
            let notifier: Address = env.notifiers[i];
            env.publish(EmergencyEvent::Notified { notifier, event_type, severity, data });
            i += 1;
        }
        count as u32
    }

    // -----------------------------------------------------------------------
    // Incident Log
    // -----------------------------------------------------------------------

    /// Get all incident records (up to max entries). 0 = all.
    pub fn get_incident_log(env: &EmergencyEnv, max_entries: u32) -> (r: Vec<IncidentRecord>)
        ensures
            r@ == newest_incidents(env@, max_entries),
    {
        let n: usize = env.incidents.len();
        let from: usize = if max_entries == 0 || n <= max_entries as usize {
            0
        } else {
            n - max_entries as usize
        };
        let mut out: Vec<IncidentRecord> = Vec::new();
        let mut i: usize = from;
        while i < n
            invariant
                from <= i <= n == env@.incidents.len(),
                out@ == env@.incidents.subrange(from as int, i as int),
            decreases n - i,
        {
            out.push(env.incidents[i]);
            i += 1;
            assert(out@ =~= env@.incidents.subrange(from as int, i as int));
        }
        assert(out@ =~= newest_incidents(env@, max_entries));
        out
    }

    /// Get the total number of incident records.
    pub fn get_incident_count(env: &EmergencyEnv) -> (n: u32)
        requires
            env@.wf(),
        ensures
            n == env@.incidents.len(),
    {
        env.incidents.len() as u32
    }

    /// Clear the incident log (admin only).
    pub fn clear_incident_log(env: &mut EmergencyEnv) -> (r: Result<Symbol, Error>)
        requires
            old(env)@.admin_signed(),
        ensures
            effect(log_cleared(old(env)@), r, old(env)@, final(env)@),
            old(env)@.wf() ==> final(env)@.wf(),
    {
        match Self::require_admin(env) {
            Ok(_) => {},
            Err(e) => return Err(e),
        }
        env.incidents = Vec::new();
        assert(env@ =~= log_cleared(old(env)@)->Ok_0.0);
        Ok(symbol_short("ok"))
    }

    // -----------------------------------------------------------------------
    // System State
    // -----------------------------------------------------------------------

    /// Get a comprehensive snapshot of the emergency system state.
    pub fn get_emergency_state(env: &EmergencyEnv) -> (r: EmergencyState)
        requires
            env@.wf(),
        ensures
            r == (EmergencyState {
                is_paused: env@.paused,
                is_safe_mode: env@.safe_mode,
                circuit_breaker_tripped: env@.circuit_tripped,
                circuit_threshold_bps: env@.circuit_threshold,
                max_trade_amount: env@.max_trade,
                emergency_withdrawal_fee_bps: env@.withdrawal_fee,
                lock_period: env@.lock_period,
                incident_count: env@.incidents.len() as u32,
                paused_reason: env@.pause_reason,
                safe_mode_reason: env@.safe_mode_reason,
            }),
    {
        EmergencyState {
            is_paused: env.paused,
            is_safe_mode: env.safe_mode,
            circuit_breaker_tripped: env.circuit_tripped,
            circuit_threshold_bps: env.circuit_threshold,
            max_trade_amount: env.max_trade,
            emergency_withdrawal_fee_bps: env.withdrawal_fee,
            lock_period: env.lock_period,
            incident_count: env.incidents.len() as u32,
            paused_reason: env.pause_reason,
            safe_mode_reason: env.safe_mode_reason,
        }
    }

    // -----------------------------------------------------------------------
    // Admin
    // -----------------------------------------------------------------------

    /// Get the admin address.
    pub fn get_admin(env: &EmergencyEnv) -> (r: Result<Address, Error>)
        ensures
            r == (match env@.admin {
                Some(a) => Ok(a),
                None => Err(Error::NotInitialized),
            }),
    {
        match env.admin {
            Some(a) => Ok(a),
            None => Err(Error::NotInitialized),
        }
    }

    /// Transfer admin role to a new address.
    pub fn transfer_admin(env: &mut EmergencyEnv, new_admin: Address) -> (r: Result<Symbol, Error>)
        requires
            old(env)@.admin_signed(),
        ensures
            effect(admin_transferred(old(env)@, new_admin), r, old(env)@, final(env)@),
            old(env)@.wf() ==> final(env)@.wf(),
    {
        let admin: Address = match Self::require_admin(env) {
            Ok(a) => a,
            Err(e) => return Err(e),
        };
        env.admin = Some(new_admin);
        env.append_incident(
            IncidentActionType::ConfigUpdated,
            IncidentSeverity::Critical,
            admin,
            symbol_short("ADM_TRF"),
            0,
        );
        assert(env@ =~= admin_transferred(old(env)@, new_admin)->Ok_0.0);
        Ok(symbol_short("ok"))
    }
}

/// The penalty lies between nothing and the whole amount.
pub proof fn lemma_penalty_bounds(s: ControlState, amount: i128)
    requires
        amount > 0,
        0 <= s.withdrawal_fee <= BPS_DENOM,
    ensures
        0 <= penalty_of(s, amount) <= amount,
{
    let p = amount * s.withdrawal_fee;
    assert(0 <= p <= amount * 10_000) by (nonlinear_arith)
        requires
            p == amount * s.withdrawal_fee,
            amount > 0,
            0 <= s.withdrawal_fee <= 10_000,
    ;
    lemma_quot_bounds(p, BPS_DENOM as int);
}

/// Removing an address keeps the others, each once.
pub proof fn lemma_without(list: Seq<Address>, a: Address, n: int)
    requires
        0 <= n <= list.len(),
    ensures
        without(list, a, n).len() <= n,
        forall|b: Address| #[trigger]
            without(list, a, n).contains(b) <==> b != a && list.take(n).contains(b),
        list.no_duplicates() ==> without(list, a, n).no_duplicates(),
    decreases n,
{
    let out = without(list, a, n);
    if n > 0 {
        lemma_without(list, a, n - 1);
        let before = without(list, a, n - 1);
        let x = list[n - 1];
        let shorter = list.take(n - 1);
        let longer = list.take(n);
        assert(longer =~= shorter.push(x));
        assert forall|b: Address| #[trigger] out.contains(b) <==> b != a && longer.contains(b) by {
            assert(before.contains(b) <==> b != a && shorter.contains(b));
            lemma_push_contains(shorter, x, b);
            lemma_push_contains(before, x, b);
        }
        if list.no_duplicates() {
            if shorter.contains(x) {
                let k = choose|k: int| 0 <= k < shorter.len() && shorter[k] == x;
                assert(list[k] == list[n - 1]);
                assert(false);
            }
            assert(!before.contains(x));
        }
    }
}

proof fn lemma_push_contains(list: Seq<Address>, x: Address, b: Address)
    ensures
        list.push(x).contains(b) <==> b == x || list.contains(b),
{
    let longer = list.push(x);
    if list.contains(b) {
        let k = choose|k: int| 0 <= k < list.len() && list[k] == b;
        assert(longer[k] == b);
    }
    assert(longer[list.len() as int] == x);
    if longer.contains(b) && b != x {
        let k = choose|k: int| 0 <= k < longer.len() && longer[k] == b;
        assert(list[k] == b);
    }
}

} // verus!
