//! Storage, events and ledger data of the emergency controls.

use vstd::prelude::*;

use crate::audit::contract::EventData;
use crate::audit::logger::{call_views, AuditCall, AuditCallView};
use crate::audit::permissions;
use crate::audit::records::{AuditEventType, StateSnapshot};
use crate::base::address::Address;
use crate::base::symbol::{sym, symbol_short, Symbol};
use crate::base::table::Table;
use crate::base::vecs::{has_address, push_capped, pushed_capped};
use crate::emergency::records::{
    IncidentActionType, IncidentRecord, IncidentSeverity, RateLimitConfig, RateLimitCounter,
    BPS_DENOM, DEFAULT_CIRCUIT_THRESHOLD_BPS, DEFAULT_EMERGENCY_WITHDRAWAL_FEE_BPS,
    DEFAULT_LOCK_PERIOD, DEFAULT_MAX_TRADE_AMOUNT, MAX_INCIDENT_LOG, MAX_NOTIFIERS,
};

verus! {

/// An event that the contract publishes.
#[derive(Clone, Copy, Debug, PartialEq, Eq, Structural)]
pub enum EmergencyEvent {
    /// `EM_INIT`: the contract was initialized.
    Initialized { admin: Address, threshold: i128, max_trade: i128 },
    /// `PAUSE`: operations were paused.
    Paused { caller: Address, reason: Symbol },
    /// `UNPAUS`: operations were resumed.
    Unpaused { admin: Address, reason: Symbol },
    /// `EM_WD`: an emergency withdrawal was executed.
    Withdrawn { user: Address, amount: i128, penalty: i128, net_amount: i128 },
    /// `CB_TRIP`: the circuit breaker tripped.
    BreakerTripped { caller: Address, change_bps: i128, threshold: i128 },
    /// `CB_RST`: the circuit breaker was reset.
    BreakerReset { admin: Address, reason: Symbol },
    /// `MX_TR`: the maximum trade size was set.
    MaxTradeSet { admin: Address, max_trade: i128 },
    /// `SF_MOD`: safe mode was entered.
    SafeModeEntered { caller: Address, reason: Symbol },
    /// `SF_EXIT`: safe mode was left.
    SafeModeExited { admin: Address, reason: Symbol },
    /// `NOTIFY`: a notifier was notified.
    Notified { notifier: Address, event_type: Symbol, severity: IncidentSeverity, data: i128 },
}

/// The storage of the contract and the ledger around one call.
#[derive(Debug)]
pub struct EmergencyEnv {
    /// Ledger time in seconds.
    pub timestamp: u64,
    /// Addresses that authorised the call.
    pub auths: Vec<Address>,
    /// Events published so far, oldest first.
    pub events: Vec<EmergencyEvent>,
    /// Calls made on the audit-log sink so far, oldest first.
    pub audit_calls: Vec<AuditCall>,
    /// Admin address set by `initialize`.
    pub admin: Option<Address>,
    /// Guardian address (can pause).
    pub guardian: Option<Address>,
    /// Audit-log sink address.
    pub audit_sink: Option<Address>,
    /// Whether operations are paused.
    pub paused: bool,
    /// Why operations are paused.
    pub pause_reason: Symbol,
    /// Whether safe mode is on.
    pub safe_mode: bool,
    /// Why safe mode is on.
    pub safe_mode_reason: Symbol,
    /// Whether the circuit breaker is tripped.
    pub circuit_tripped: bool,
    /// Price change in bps that trips the circuit breaker.
    pub circuit_threshold: i128,
    /// Maximum trade size.
    pub max_trade: i128,
    /// Penalty of an emergency withdrawal in bps.
    pub withdrawal_fee: i128,
    /// Lock period of normal withdrawals in seconds.
    pub lock_period: u64,
    /// Incidents, oldest first.
    pub incidents: Vec<IncidentRecord>,
    /// Rate limits.
    pub rate_limits: Vec<RateLimitConfig>,
    /// Rate limit counters by operation.
    pub rate_counters: Table<Symbol, RateLimitCounter>,
    /// Addresses that notifications are for.
    pub notifiers: Vec<Address>,
}

/// What a `EmergencyEnv` holds, with its tables as maps and its lists as sequences.
#[verifier::ext_equal]
pub struct ControlState {
    pub timestamp: u64,
    pub auths: Seq<Address>,
    pub events: Seq<EmergencyEvent>,
    pub audit_calls: Seq<AuditCallView>,
    pub admin: Option<Address>,
    pub guardian: Option<Address>,
    pub audit_sink: Option<Address>,
    pub paused: bool,
    pub pause_reason: Symbol,
    pub safe_mode: bool,
    pub safe_mode_reason: Symbol,
    pub circuit_tripped: bool,
    pub circuit_threshold: i128,
    pub max_trade: i128,
    pub withdrawal_fee: i128,
    pub lock_period: u64,
    pub incidents: Seq<IncidentRecord>,
    pub rate_limits: Seq<RateLimitConfig>,
    pub rate_counters: Map<Symbol, RateLimitCounter>,
    pub notifiers: Seq<Address>,
}

impl View for EmergencyEnv {
    type V = ControlState;

    open spec fn view(&self) -> ControlState {
        ControlState {
            timestamp: self.timestamp,
            auths: self.auths@,
            events: self.events@,
            audit_calls: call_views(self.audit_calls@),
            admin: self.admin,
            guardian: self.guardian,
            audit_sink: self.audit_sink,
            paused: self.paused,
            pause_reason: self.pause_reason,
            safe_mode: self.safe_mode,
            safe_mode_reason: self.safe_mode_reason,
            circuit_tripped: self.circuit_tripped,
            circuit_threshold: self.circuit_threshold,
            max_trade: self.max_trade,
            withdrawal_fee: self.withdrawal_fee,
            lock_period: self.lock_period,
            incidents: self.incidents@,
            rate_limits: self.rate_limits@,
            rate_counters: self.rate_counters@,
            notifiers: self.notifiers@,
        }
    }
}

impl ControlState {
    /// The state of a contract that was never called.
    pub open spec fn fresh(timestamp: u64) -> ControlState {
        ControlState {
            timestamp,
            auths: Seq::empty(),
            events: Seq::empty(),
            audit_calls: Seq::empty(),
            admin: None,
            guardian: None,
            audit_sink: None,
            paused: false,
            pause_reason: sym("none"@),
            safe_mode: false,
            safe_mode_reason: sym("none"@),
            circuit_tripped: false,
            circuit_threshold: DEFAULT_CIRCUIT_THRESHOLD_BPS,
            max_trade: DEFAULT_MAX_TRADE_AMOUNT,
            withdrawal_fee: DEFAULT_EMERGENCY_WITHDRAWAL_FEE_BPS,
            lock_period: DEFAULT_LOCK_PERIOD,
            incidents: Seq::empty(),
            rate_limits: Seq::empty(),
            rate_counters: Map::empty(),
            notifiers: Seq::empty(),
        }
    }

    /// The address authorised the call.
    pub open spec fn authorized(self, a: Address) -> bool {
        self.auths.contains(a)
    }

    /// The administrator, if there is one, authorised the call.
    pub open spec fn admin_signed(self) -> bool {
        self.admin is Some ==> self.authorized(self.admin->Some_0)
    }

    /// The settings are within their ranges and the lists within their limits.
    pub open spec fn wf(self) -> bool {
        &&& 0 <= self.withdrawal_fee <= BPS_DENOM
        &&& 0 < self.circuit_threshold <= BPS_DENOM
        &&& self.max_trade > 0
        &&& self.incidents.len() <= MAX_INCIDENT_LOG
        &&& self.notifiers.len() <= MAX_NOTIFIERS
        &&& self.notifiers.no_duplicates()
    }

    /// The state after an event was published.
    pub open spec fn emit(self, e: EmergencyEvent) -> ControlState {
        ControlState { events: self.events.push(e), ..self }
    }

    /// The state after an incident was noted.
    pub open spec fn noted(
        self,
        action_type: IncidentActionType,
        severity: IncidentSeverity,
        initiator: Address,
        description: Symbol,
        data: i128,
    ) -> ControlState {
        ControlState {
            incidents: pushed_capped(
                self.incidents,
                IncidentRecord {
                    timestamp: self.timestamp,
                    action_type,
                    severity,
                    initiator,
                    description,
                    data,
                },
                MAX_INCIDENT_LOG as nat,
            ),
            ..self
        }
    }

    /// The state after the audit-log sink, if there is one, was told of an event.
    pub open spec fn audited(
        self,
        actor: Address,
        event_type: AuditEventType,
        outcome: Symbol,
        detail: Seq<char>,
    ) -> ControlState {
        match self.audit_sink {
            None => self,
            Some(sink) => ControlState {
                audit_calls: self.audit_calls.push(
                    AuditCallView {
                        sink,
                        data: EventData {
                            actor,
                            event_type,
                            portfolio: sym("emerg"@),
                            permissions: permissions::ADMIN,
                            state_before: Seq::empty(),
                            state_after: Seq::empty(),
                            outcome,
                            detail,
                        },
                    },
                ),
                ..self
            },
        }
    }
}

impl EmergencyEnv {
    /// The storage of a contract that was never called.
    pub fn new(timestamp: u64) -> (env: EmergencyEnv)
        ensures
            env@ == ControlState::fresh(timestamp),
            env@.wf(),
    {
        let env = EmergencyEnv {
            timestamp,
            auths: Vec::new(),
            events: Vec::new(),
            audit_calls: Vec::new(),
            admin: None,
            guardian: None,
            audit_sink: None,
            paused: false,
            pause_reason: symbol_short("none"),
            safe_mode: false,
            safe_mode_reason: symbol_short("none"),
            circuit_tripped: false,
            circuit_threshold: DEFAULT_CIRCUIT_THRESHOLD_BPS,
            max_trade: DEFAULT_MAX_TRADE_AMOUNT,
            withdrawal_fee: DEFAULT_EMERGENCY_WITHDRAWAL_FEE_BPS,
            lock_period: DEFAULT_LOCK_PERIOD,
            incidents: Vec::new(),
            rate_limits: Vec::new(),
            rate_counters: Table::new(),
            notifiers: Vec::new(),
        };
        assert(env@ =~= ControlState::fresh(timestamp));
        env
    }

    /// Whether the address authorised the call.
    pub fn is_authorized(&self, a: Address) -> (b: bool)
        ensures
            b == self@.authorized(a),
    {
        has_address(&self.auths, a)
    }

    /// Publish an event.
    pub(crate) fn publish(&mut self, e: EmergencyEvent)
        ensures
            final(self)@ == old(self)@.emit(e),
    {
        self.events.push(e);
        assert(self@ =~= old(self)@.emit(e));
    }

    /// Note an incident. Only the newest are retained.
    pub(crate) fn append_incident(
        &mut self,
        action_type: IncidentActionType,
        severity: IncidentSeverity,
        initiator: Address,
        description: Symbol,
        data: i128,
    )
        ensures
            final(self)@ == old(self)@.noted(action_type, severity, initiator, description, data),
            old(self)@.wf() ==> final(self)@.wf(),
    {
        let record = IncidentRecord {
            timestamp: self.timestamp,
            action_type,
            severity,
            initiator,
            description,
            data,
        };
        push_capped(&mut self.incidents, record, MAX_INCIDENT_LOG as usize);
        assert(self@ =~= old(self)@.noted(action_type, severity, initiator, description, data));
    }

    /// Log an audit event if a sink is configured. No-op otherwise.
    pub(crate) fn log_audit_if_configured(
        &mut self,
        actor: Address,
        event_type: AuditEventType,
        outcome: Symbol,
        detail: &str,
    )
        ensures
            final(self)@ == old(self)@.audited(actor, event_type, outcome, detail@),
    {
        match self.audit_sink {
            Some(sink) => {
                let call = AuditCall {
                    sink,
                    actor,
                    event_type,
                    portfolio: symbol_short("emerg"),
                    permissions: permissions::ADMIN,
                    state_before: StateSnapshot::empty(),
                    state_after: StateSnapshot::empty(),
                    outcome,
                    detail: detail.to_owned(),
                };
                let ghost view = call@;
                self.audit_calls.push(call);
                assert(call_views(self.audit_calls@) =~= call_views(old(self).audit_calls@).push(
                    view,
                ));
            },
            None => {},
        }
        assert(self@ =~= old(self)@.audited(actor, event_type, outcome, detail@));
    }
}

} // verus!
