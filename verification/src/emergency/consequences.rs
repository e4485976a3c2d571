//! What the emergency controls do, call by call, in terms of the stored
//! settings and of what callers hand in and get back.

use vstd::prelude::*;

use crate::base::address::Address;
use crate::base::arith::{fits, lemma_quot_bounds, lemma_quot_rest};
use crate::base::symbol::Symbol;
use crate::emergency::contract::{
    breaker_reset, guardian_set, initialized, limit_index, lock_period_set, max_trade_set,
    newest_incidents, paused, price_change_reported, rate_checked, rate_limit_set,
    safe_mode_entered, threshold_set, trips, unpaused, validated, withdrawal_fee_set, withdrawn,
};
use crate::emergency::records::RateLimitConfig;
use crate::emergency::state::{ControlState, EmergencyEvent};

verus! {

// ---------------------------------------------------------------------------
// Circuit breaker
// ---------------------------------------------------------------------------

/// A reported price change trips the breaker and pauses operations exactly
/// where its size, up or down, reaches the threshold that is stored; no other
/// report changes anything, and none changes a setting.
pub proof fn the_stored_threshold_decides(s: ControlState, caller: Address, change: i128)
    ensures
        ({
            let t = price_change_reported(s, caller, change);
            let large = change >= s.circuit_threshold || -change >= s.circuit_threshold;
            &&& trips(s, change) <==> large
            &&& large ==> t.circuit_tripped && t.paused
            &&& !large ==> t == s
            &&& t == ControlState {
                circuit_tripped: t.circuit_tripped,
                paused: t.paused,
                pause_reason: t.pause_reason,
                incidents: t.incidents,
                events: t.events,
                ..s
            }
        }),
{
}

/// Right after a threshold was set, a change trips a breaker that was not
/// tripped if and only if it is at least as large.
pub proof fn a_threshold_counts_once_set(
    s: ControlState,
    threshold: i128,
    caller: Address,
    change: i128,
)
    requires
        threshold_set(s, threshold) is Ok,
        !s.circuit_tripped,
    ensures
        price_change_reported(
            threshold_set(s, threshold)->Ok_0.0,
            caller,
            change,
        ).circuit_tripped <==> (change >= threshold || -change >= threshold),
{
}

// ---------------------------------------------------------------------------
// Emergency withdrawals
// ---------------------------------------------------------------------------

/// A withdrawal of a positive amount pays all of it but the penalty: the
/// stored fraction of the amount, rounded down. It changes no setting.
pub proof fn withdrawals_cost_the_stored_fraction(s: ControlState, user: Address, amount: i128)
    requires
        0 <= s.withdrawal_fee <= 10_000,
    ensures
        withdrawn(s, user, amount) is Ok <==> amount > 0 && fits(amount * s.withdrawal_fee),
        withdrawn(s, user, amount) is Ok ==> {
            let (t, paid) = withdrawn(s, user, amount)->Ok_0;
            let penalty = amount - paid;
            &&& 0 <= penalty <= amount
            &&& penalty * 10_000 <= amount * s.withdrawal_fee < (penalty + 1) * 10_000
            &&& t.events.last() == EmergencyEvent::Withdrawn {
                user,
                amount,
                penalty: penalty as i128,
                net_amount: paid,
            }
            &&& t == ControlState {
                incidents: t.incidents,
                audit_calls: t.audit_calls,
                events: t.events,
                ..s
            }
        },
{
    let x = amount * s.withdrawal_fee;
    lemma_quot_rest(x, 10_000);
    lemma_quot_bounds(x, 10_000);
    if amount > 0 {
        assert(0 <= x <= amount * 10_000) by (nonlinear_arith)
            requires
                x == amount * s.withdrawal_fee,
                0 <= s.withdrawal_fee <= 10_000,
                amount > 0,
        ;
    }
}

/// Right after a penalty was set, it is the one that a withdrawal costs.
pub proof fn a_penalty_counts_once_set(s: ControlState, fee: i128, user: Address, amount: i128)
    requires
        withdrawal_fee_set(s, fee) is Ok,
        withdrawn(withdrawal_fee_set(s, fee)->Ok_0.0, user, amount) is Ok,
    ensures
        ({
            let paid = withdrawn(withdrawal_fee_set(s, fee)->Ok_0.0, user, amount)->Ok_0.1;
            (amount - paid) * 10_000 <= amount * fee < (amount - paid + 1) * 10_000
        }),
{
    withdrawals_cost_the_stored_fraction(withdrawal_fee_set(s, fee)->Ok_0.0, user, amount);
}

// ---------------------------------------------------------------------------
// Operations
// ---------------------------------------------------------------------------

/// An operation passes exactly where nothing stops it: no pause and no tripped
/// breaker, unless it goes on in a pause, and no safe mode, unless it goes on
/// in that. Only blocked operations are noted.
pub proof fn operations_pass_unless_stopped(s: ControlState, in_pause: bool, in_safe_mode: bool)
    ensures
        ({
            let free = (in_pause || (!s.paused && !s.circuit_tripped)) && (in_safe_mode
                || !s.safe_mode);
            let r = validated(s, in_pause, in_safe_mode);
            &&& free ==> r is Ok && r->Ok_0.0 == s && r->Ok_0.1
            &&& !free && s.admin is Some ==> r is Ok && !r->Ok_0.1 && r->Ok_0.0 == (ControlState {
                incidents: r->Ok_0.0.incidents,
                ..s
            })
            &&& !free && s.admin is None ==> r is Err
        }),
{
}

/// Who stops and resumes: the administrator and the guardian pause and enter
/// safe mode where it is not so already, and nothing else stops that. Lifting
/// a pause or resetting the breaker needs one to lift or reset.
pub proof fn stopping_and_resuming(s: ControlState, caller: Address, reason: Symbol)
    requires
        s.admin is Some,
    ensures
        ({
            let allowed = s.admin == Some(caller) || s.guardian == Some(caller);
            &&& paused(s, caller, reason) is Ok <==> allowed && !s.paused
            &&& safe_mode_entered(s, caller, reason) is Ok <==> allowed && !s.safe_mode
            &&& unpaused(s, reason) is Ok <==> s.paused
            &&& breaker_reset(s, reason) is Ok <==> s.circuit_tripped
            &&& breaker_reset(s, reason) is Ok ==> !breaker_reset(
                s,
                reason,
            )->Ok_0.0.circuit_tripped && breaker_reset(s, reason)->Ok_0.0.paused == s.paused
        }),
{
}

// ---------------------------------------------------------------------------
// Rate limits
// ---------------------------------------------------------------------------

proof fn lemma_first_limit(limits: Seq<RateLimitConfig>, operation: Symbol, from: int, at: int)
    requires
        0 <= from <= at <= limits.len(),
        at < limits.len() ==> limits[at].operation == operation,
        forall|i: int| from <= i < at ==> (#[trigger] limits[i]).operation != operation,
    ensures
        limit_index(limits, operation, from) == at,
    decreases at - from,
{
    if from < at {
        assert(limits[from].operation != operation);
        lemma_first_limit(limits, operation, from + 1, at);
    }
}

/// A limited operation passes exactly where its window is over or has seen
/// fewer calls than its limit allows. A call that passes is counted, in the
/// old window or as the first of a new one that starts now; one that does not
/// leaves the counters alone.
pub proof fn a_limit_lets_its_calls_pass(s: ControlState, operation: Symbol, at: int)
    requires
        0 <= at < s.rate_limits.len(),
        s.rate_limits[at].operation == operation,
        forall|i: int| 0 <= i < at ==> (#[trigger] s.rate_limits[i]).operation != operation,
        s.rate_limits[at].max_calls > 0,
        s.admin is Some,
    ensures
        ({
            let c = s.rate_limits[at];
            let known = s.rate_counters.contains_key(operation);
            let count: int = if known {
                s.rate_counters[operation].count as int
            } else {
                0
            };
            let start: int = if known {
                s.rate_counters[operation].window_start as int
            } else {
                0
            };
            let over = s.timestamp >= start + c.window_seconds;
            let r = rate_checked(s, operation);
            &&& r is Ok
            &&& r->Ok_0.1 <==> over || count < c.max_calls
            &&& r->Ok_0.1 ==> {
                let k = r->Ok_0.0.rate_counters[operation];
                &&& r->Ok_0.0.rate_counters == s.rate_counters.insert(operation, k)
                &&& over ==> k.count == 1 && k.window_start == s.timestamp
                &&& !over ==> k.count == count + 1 && k.window_start == start
            }
            &&& !r->Ok_0.1 ==> r->Ok_0.0.rate_counters == s.rate_counters
        }),
{
    lemma_first_limit(s.rate_limits, operation, 0, at);
}

/// An operation without a limit always passes, uncounted.
pub proof fn operations_without_a_limit_pass(s: ControlState, operation: Symbol)
    requires
        forall|i: int|
            0 <= i < s.rate_limits.len() ==> (#[trigger] s.rate_limits[i]).operation != operation,
    ensures
        rate_checked(s, operation) is Ok,
        rate_checked(s, operation)->Ok_0.0 == s,
        rate_checked(s, operation)->Ok_0.1,
{
    lemma_first_limit(s.rate_limits, operation, 0, s.rate_limits.len() as int);
}

// ---------------------------------------------------------------------------
// Settings and the log
// ---------------------------------------------------------------------------

/// Every setting takes the values in its range, and no others; it is then the
/// one that was set, and no other setting changes.
pub proof fn settings_are_what_was_set(
    s: ControlState,
    x: i128,
    period: u64,
    who: Address,
    limit: RateLimitConfig,
)
    requires
        s.admin is Some,
    ensures
        threshold_set(s, x) is Ok <==> 0 < x <= 10_000,
        threshold_set(s, x) is Ok ==> ({
            let t = threshold_set(s, x)->Ok_0.0;
            t == ControlState { circuit_threshold: x, incidents: t.incidents, ..s }
        }),
        max_trade_set(s, x) is Ok <==> x > 0,
        max_trade_set(s, x) is Ok ==> ({
            let t = max_trade_set(s, x)->Ok_0.0;
            t == ControlState { max_trade: x, incidents: t.incidents, events: t.events, ..s }
        }),
        withdrawal_fee_set(s, x) is Ok <==> 0 <= x <= 10_000,
        withdrawal_fee_set(s, x) is Ok ==> ({
            let t = withdrawal_fee_set(s, x)->Ok_0.0;
            t == ControlState { withdrawal_fee: x, incidents: t.incidents, ..s }
        }),
        lock_period_set(s, period) is Ok,
        lock_period_set(s, period)->Ok_0.0 == (ControlState { lock_period: period, ..s }),
        guardian_set(s, who) is Ok,
        ({
            let t = guardian_set(s, who)->Ok_0.0;
            t == ControlState { guardian: Some(who), incidents: t.incidents, ..s }
        }),
        rate_limit_set(s, limit) is Ok <==> limit.max_calls > 0 && limit.window_seconds > 0,
        rate_limit_set(s, limit) is Ok ==> ({
            let t = rate_limit_set(s, limit)->Ok_0.0;
            t == ControlState { rate_limits: t.rate_limits, incidents: t.incidents, ..s }
        }),
{
}

/// A contract is initialized once. It starts with a threshold of a fifth, a
/// penalty of a tenth and a lock of one day, and keeps everything else.
pub proof fn a_new_contract_has_the_defaults(s: ControlState, admin: Address)
    ensures
        initialized(s, admin) is Ok <==> s.admin is None,
        initialized(s, admin) is Ok ==> ({
            let t = initialized(s, admin)->Ok_0.0;
            t == ControlState {
                admin: Some(admin),
                circuit_threshold: 2_000,
                max_trade: 100_000_000,
                withdrawal_fee: 1_000,
                lock_period: 86_400,
                events: t.events,
                ..s
            }
        }),
{
}

/// The incidents that are given out are the newest, in their order: all of
/// them, or as many as were asked for.
pub proof fn the_newest_incidents_are_given(s: ControlState, max: u32)
    ensures
        ({
            let given = newest_incidents(s, max);
            let n = s.incidents.len();
            &&& given.len() == if max == 0 || n <= max {
                n
            } else {
                max as nat
            }
            &&& forall|i: int|
                0 <= i < given.len() ==> #[trigger] given[i] == s.incidents[n - given.len() + i]
        }),
{
}

} // verus!
