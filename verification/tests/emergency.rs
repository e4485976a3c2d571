//! Pauses, safe mode, the circuit breaker, withdrawals, rate limits and incidents.

use astraport::audit::records::AuditEventType;
use astraport::base::address::Address;
use astraport::base::symbol::Symbol;
use astraport::emergency::contract::EmergencyControls;
use astraport::emergency::records::{
    EmergencyState, Error, IncidentActionType, IncidentSeverity, RateLimitConfig,
    RateLimitCounter, BPS_DENOM, DEFAULT_CIRCUIT_THRESHOLD_BPS,
    DEFAULT_EMERGENCY_WITHDRAWAL_FEE_BPS, DEFAULT_LOCK_PERIOD, DEFAULT_MAX_TRADE_AMOUNT,
    MAX_INCIDENT_LOG, MAX_NOTIFIERS,
};
use astraport::emergency::state::{EmergencyEnv, EmergencyEvent};

/// A new address that signs every call.
fn address(env: &mut EmergencyEnv) -> Address {
    let text = format!("G{:0>55}", env.auths.len() + 1);
    let made = Address::from_text(text.as_bytes());
    env.auths.push(made);
    made
}

fn setup() -> (EmergencyEnv, Address) {
    let mut env = EmergencyEnv::new(0);
    let admin = address(&mut env);
    EmergencyControls::initialize(&mut env, admin).unwrap();
    (env, admin)
}

fn ok() -> Symbol {
    Symbol::new("ok")
}

// Codes and constants

#[test]
fn lib_test_error_codes() {
    assert_eq!(Error::NotInitialized.code(), 1);
    assert_eq!(Error::AlreadyInitialized.code(), 2);
    assert_eq!(Error::AdminRequired.code(), 3);
    assert_eq!(Error::GuardianRequired.code(), 4);
    assert_eq!(Error::AlreadyPaused.code(), 5);
    assert_eq!(Error::NotPaused.code(), 6);
    assert_eq!(Error::AlreadyInSafeMode.code(), 7);
    assert_eq!(Error::NotInSafeMode.code(), 8);
    assert_eq!(Error::CircuitBreakerTripped.code(), 9);
    assert_eq!(Error::TradeSizeExceedsLimit.code(), 10);
    assert_eq!(Error::OperationRateLimited.code(), 11);
    assert_eq!(Error::InvalidConfiguration.code(), 12);
    assert_eq!(Error::ArithmeticOverflow.code(), 13);
    assert_eq!(Error::InsufficientBalance.code(), 14);
    assert_eq!(Error::LockPeriodNotExpired.code(), 15);
    assert_eq!(Error::IncidentLogFull.code(), 16);
    assert_eq!(Error::TooManyNotifiers.code(), 17);
    assert_eq!(Error::CannotPauseGuardian.code(), 18);
    assert_eq!(Error::OperationBlockedBySafeMode.code(), 19);
}

#[test]
fn test_constants() {
    assert_eq!(BPS_DENOM, 10_000);
    assert_eq!(MAX_INCIDENT_LOG, 200);
    assert_eq!(MAX_NOTIFIERS, 50);
    assert_eq!(DEFAULT_CIRCUIT_THRESHOLD_BPS, 2000);
    assert_eq!(DEFAULT_MAX_TRADE_AMOUNT, 100_000_000);
    assert_eq!(DEFAULT_EMERGENCY_WITHDRAWAL_FEE_BPS, 1000);
    assert_eq!(DEFAULT_LOCK_PERIOD, 86400);
}

#[test]
fn test_incident_action_type_variants() {
    assert_eq!(IncidentActionType::Pause.code(), 0);
    assert_eq!(IncidentActionType::Unpause.code(), 1);
    assert_eq!(IncidentActionType::EmergencyWithdrawal.code(), 2);
    assert_eq!(IncidentActionType::CircuitBreakerTrip.code(), 3);
    assert_eq!(IncidentActionType::CircuitBreakerReset.code(), 4);
    assert_eq!(IncidentActionType::SafeModeEnter.code(), 5);
    assert_eq!(IncidentActionType::SafeModeExit.code(), 6);
    assert_eq!(IncidentActionType::MaxTradeUpdated.code(), 7);
    assert_eq!(IncidentActionType::ThresholdUpdated.code(), 8);
    assert_eq!(IncidentActionType::RateLimitUpdated.code(), 9);
    assert_eq!(IncidentActionType::ConfigUpdated.code(), 10);
    assert_eq!(IncidentActionType::TradeBlocked.code(), 11);
    assert_eq!(IncidentActionType::OperationBlocked.code(), 12);
}

#[test]
fn test_severity_variants() {
    assert_eq!(IncidentSeverity::Low.code(), 0);
    assert_eq!(IncidentSeverity::Medium.code(), 1);
    assert_eq!(IncidentSeverity::High.code(), 2);
    assert_eq!(IncidentSeverity::Critical.code(), 3);
}

#[test]
fn test_severity_ordering() {
    assert!(IncidentSeverity::Low < IncidentSeverity::Medium);
    assert!(IncidentSeverity::Medium < IncidentSeverity::High);
    assert!(IncidentSeverity::High < IncidentSeverity::Critical);
}

#[test]
fn test_severity_equality() {
    assert_eq!(IncidentSeverity::Low, IncidentSeverity::Low);
    assert_ne!(IncidentSeverity::Low, IncidentSeverity::Critical);
}

#[test]
fn test_incident_action_type_equality() {
    assert_eq!(IncidentActionType::Pause, IncidentActionType::Pause);
    assert_ne!(IncidentActionType::Pause, IncidentActionType::Unpause);
}

// Records

#[test]
fn test_emergency_state_default_values() {
    let state = EmergencyState {
        is_paused: false,
        is_safe_mode: false,
        circuit_breaker_tripped: false,
        circuit_threshold_bps: DEFAULT_CIRCUIT_THRESHOLD_BPS,
        max_trade_amount: DEFAULT_MAX_TRADE_AMOUNT,
        emergency_withdrawal_fee_bps: DEFAULT_EMERGENCY_WITHDRAWAL_FEE_BPS,
        lock_period: DEFAULT_LOCK_PERIOD,
        incident_count: 0,
        paused_reason: Symbol::new("none"),
        safe_mode_reason: Symbol::new("none"),
    };
    assert!(!state.is_paused);
    assert!(!state.is_safe_mode);
    assert!(!state.circuit_breaker_tripped);
    assert_eq!(state.circuit_threshold_bps, 2000);
    assert_eq!(state.max_trade_amount, 100_000_000);
    assert_eq!(state.emergency_withdrawal_fee_bps, 1000);
    assert_eq!(state.lock_period, 86400);
    assert_eq!(state.incident_count, 0);

    let (env, _admin) = setup();
    assert_eq!(EmergencyControls::get_emergency_state(&env), state);
}

#[test]
fn test_emergency_state_clone() {
    let state = EmergencyState {
        is_paused: true,
        is_safe_mode: false,
        circuit_breaker_tripped: true,
        circuit_threshold_bps: 1500,
        max_trade_amount: 50_000_000,
        emergency_withdrawal_fee_bps: 750,
        lock_period: 3600,
        incident_count: 5,
        paused_reason: Symbol::new("TEST"),
        safe_mode_reason: Symbol::new("none"),
    };
    let cloned = state.clone();
    assert_eq!(state.is_paused, cloned.is_paused);
    assert_eq!(state.circuit_threshold_bps, cloned.circuit_threshold_bps);
    assert_eq!(state.incident_count, cloned.incident_count);
}

#[test]
fn test_rate_limit_config_clone() {
    let config = RateLimitConfig {
        operation: Symbol::new("TRADE"),
        max_calls: 10,
        window_seconds: 60,
    };
    let cloned = config.clone();
    assert_eq!(config.operation, cloned.operation);
    assert_eq!(config.max_calls, cloned.max_calls);
    assert_eq!(config.window_seconds, cloned.window_seconds);
}

#[test]
fn test_rate_limit_counter_clone() {
    let counter = RateLimitCounter {
        operation: Symbol::new("SWAP"),
        count: 3,
        window_start: 500,
    };
    let cloned = counter.clone();
    assert_eq!(counter.operation, cloned.operation);
    assert_eq!(counter.count, cloned.count);
    assert_eq!(counter.window_start, cloned.window_start);
}

// Withdrawals

/// What is withdrawn and the penalty, at the given rate.
fn withdraw(amount: i128, fee_bps: i128) -> (i128, i128) {
    let (mut env, _admin) = setup();
    EmergencyControls::set_emergency_withdrawal_fee(&mut env, fee_bps).unwrap();
    let user = address(&mut env);
    let net = EmergencyControls::emergency_withdrawal(&mut env, user, amount).unwrap();
    match env.events.last() {
        Some(EmergencyEvent::Withdrawn { penalty, net_amount, .. }) => {
            assert_eq!(*net_amount, net);
            (net, *penalty)
        }
        _ => panic!("no withdrawal was published"),
    }
}

#[test]
fn test_emergency_withdrawal_fee_calculation() {
    let amount: i128 = 1_000_000;
    let fee_bps: i128 = 1000;
    let (net, penalty) = withdraw(amount, fee_bps);
    assert_eq!(penalty, 100_000);
    assert_eq!(net, 900_000);
}

#[test]
fn test_emergency_withdrawal_zero_fee() {
    let amount: i128 = 1_000_000;
    let fee_bps: i128 = 0;
    let (net, penalty) = withdraw(amount, fee_bps);
    assert_eq!(penalty, 0);
    assert_eq!(net, 1_000_000);
}

#[test]
fn test_emergency_withdrawal_high_fee() {
    let amount: i128 = 1_000_000;
    let fee_bps: i128 = 5000;
    let (net, penalty) = withdraw(amount, fee_bps);
    assert_eq!(penalty, 500_000);
    assert_eq!(net, 500_000);
}

#[test]
fn withdrawals_round_the_penalty_down() {
    assert_eq!(withdraw(15, 1000), (14, 1));
    assert_eq!(withdraw(9, 1000), (9, 0));
    assert_eq!(withdraw(7, 10_000), (0, 7));
}

#[test]
fn withdrawals_need_a_positive_amount_that_can_be_multiplied() {
    let (mut env, _admin) = setup();
    let user = address(&mut env);
    assert_eq!(
        EmergencyControls::emergency_withdrawal(&mut env, user, 0),
        Err(Error::InvalidConfiguration)
    );
    assert_eq!(
        EmergencyControls::emergency_withdrawal(&mut env, user, -5),
        Err(Error::InvalidConfiguration)
    );
    assert_eq!(
        EmergencyControls::emergency_withdrawal(&mut env, user, i128::MAX),
        Err(Error::ArithmeticOverflow)
    );
    assert!(env.incidents.is_empty());
}

#[test]
fn withdrawals_go_on_while_everything_is_stopped() {
    let (mut env, admin) = setup();
    EmergencyControls::pause(&mut env, admin, Symbol::new("fire")).unwrap();
    EmergencyControls::enter_safe_mode(&mut env, admin, Symbol::new("fire")).unwrap();
    EmergencyControls::report_price_change(&mut env, admin, 9_999);
    let user = address(&mut env);
    assert_eq!(EmergencyControls::emergency_withdrawal(&mut env, user, 1_000), Ok(900));
}

// Trade sizes

#[test]
fn test_trade_size_within_limit() {
    let (mut env, _admin) = setup();
    EmergencyControls::set_max_trade_size(&mut env, 100_000_000).unwrap();
    assert_eq!(EmergencyControls::validate_trade_size(&env, 50_000_000), Ok(50_000_000));
    assert_eq!(EmergencyControls::validate_trade_size(&env, 100_000_000), Ok(100_000_000));
}

#[test]
fn test_trade_size_exceeds_limit() {
    let (mut env, _admin) = setup();
    EmergencyControls::set_max_trade_size(&mut env, 100_000_000).unwrap();
    assert_eq!(
        EmergencyControls::validate_trade_size(&env, 200_000_000),
        Err(Error::TradeSizeExceedsLimit)
    );
}

#[test]
fn the_trade_limit_is_positive() {
    let (mut env, admin) = setup();
    assert_eq!(
        EmergencyControls::set_max_trade_size(&mut env, 0),
        Err(Error::InvalidConfiguration)
    );
    assert_eq!(EmergencyControls::get_max_trade_size(&env), 100_000_000);
    assert_eq!(EmergencyControls::set_max_trade_size(&mut env, 7), Ok(ok()));
    assert_eq!(EmergencyControls::get_max_trade_size(&env), 7);
    assert_eq!(
        env.events.last(),
        Some(&EmergencyEvent::MaxTradeSet { admin, max_trade: 7 })
    );
}

// The circuit breaker

/// Whether a change trips a breaker with the given threshold.
fn trips(threshold: i128, change: i128) -> bool {
    let (mut env, admin) = setup();
    EmergencyControls::set_circuit_breaker_threshold(&mut env, threshold).unwrap();
    let tripped = EmergencyControls::report_price_change(&mut env, admin, change);
    assert_eq!(EmergencyControls::is_circuit_breaker_tripped(&env), tripped);
    assert_eq!(EmergencyControls::is_paused(&env), tripped);
    tripped
}

#[test]
fn test_circuit_breaker_threshold_calculation() {
    assert!(trips(2000, 2500));
    assert!(trips(2000, 2000));
}

#[test]
fn test_circuit_breaker_negative_price_change() {
    let price_change_bps: i128 = -3000;
    assert!(trips(2000, price_change_bps));
}

#[test]
fn test_circuit_breaker_below_threshold() {
    assert!(!trips(2000, 1500));
    assert!(!trips(2000, -1999));
}

#[test]
fn a_trip_pauses_until_reset_and_resumed() {
    let (mut env, admin) = setup();
    assert!(EmergencyControls::report_price_change(&mut env, admin, 2_000));
    assert_eq!(EmergencyControls::get_pause_reason(&env), Symbol::new("CIRCUIT"));
    let trade = Symbol::new("TRADE");
    assert_eq!(EmergencyControls::validate_operation(&mut env, trade, false, false), Ok(false));
    assert_eq!(EmergencyControls::validate_operation(&mut env, trade, true, false), Ok(true));
    EmergencyControls::reset_circuit_breaker(&mut env, Symbol::new("calm")).unwrap();
    assert!(EmergencyControls::is_paused(&env));
    assert_eq!(EmergencyControls::validate_operation(&mut env, trade, false, false), Ok(false));
    EmergencyControls::unpause(&mut env, Symbol::new("calm")).unwrap();
    assert_eq!(EmergencyControls::validate_operation(&mut env, trade, false, false), Ok(true));
    assert_eq!(
        EmergencyControls::reset_circuit_breaker(&mut env, Symbol::new("calm")),
        Err(Error::CircuitBreakerTripped)
    );
}

#[test]
fn a_tripped_breaker_blocks_after_resuming_alone() {
    let (mut env, admin) = setup();
    EmergencyControls::report_price_change(&mut env, admin, 2_000);
    EmergencyControls::unpause(&mut env, Symbol::new("early")).unwrap();
    let trade = Symbol::new("TRADE");
    assert_eq!(EmergencyControls::validate_operation(&mut env, trade, false, true), Ok(false));
    let last = env.incidents.last().unwrap();
    assert_eq!(last.severity, IncidentSeverity::High);
    assert_eq!(last.description, Symbol::new("CB_BLCK"));
}

#[test]
fn thresholds_are_positive_rates() {
    let (mut env, _admin) = setup();
    for bad in [0, -1, 10_001] {
        assert_eq!(
            EmergencyControls::set_circuit_breaker_threshold(&mut env, bad),
            Err(Error::InvalidConfiguration)
        );
    }
    assert_eq!(EmergencyControls::set_circuit_breaker_threshold(&mut env, 10_000), Ok(ok()));
    assert_eq!(EmergencyControls::get_circuit_breaker_threshold(&env), 10_000);
}

// Lock periods

#[test]
fn test_lock_period_expiry_calculation() {
    let now: u64 = 200;
    let staked_at: u64 = 50;
    let lock_period: u64 = 100;
    let (mut env, _admin) = setup();
    env.timestamp = now;
    EmergencyControls::set_lock_period(&mut env, lock_period).unwrap();
    assert!(EmergencyControls::is_lock_expired(&env, staked_at));
    assert!(EmergencyControls::is_lock_expired(&env, 100));
}

#[test]
fn test_lock_period_not_expired() {
    let now: u64 = 100;
    let staked_at: u64 = 50;
    let lock_period: u64 = 100;
    let (mut env, _admin) = setup();
    env.timestamp = now;
    EmergencyControls::set_lock_period(&mut env, lock_period).unwrap();
    assert!(!EmergencyControls::is_lock_expired(&env, staked_at));
}

// Rate limits

#[test]
fn test_rate_limit_counter_expiry() {
    let now: u64 = 200;
    let window_start: u64 = 100;
    let window_seconds: u64 = 60;
    let (mut env, _admin) = setup();
    let op = Symbol::new("TRADE");
    EmergencyControls::set_rate_limit(&mut env, op, 1, window_seconds).unwrap();
    env.timestamp = window_start;
    assert_eq!(EmergencyControls::check_rate_limit(&mut env, op), Ok(true));
    env.timestamp = now;
    assert_eq!(EmergencyControls::check_rate_limit(&mut env, op), Ok(true));
    assert_eq!(EmergencyControls::get_rate_limit_count(&env, op), 1);
}

#[test]
fn test_rate_limit_counter_not_expired() {
    let now: u64 = 120;
    let window_start: u64 = 100;
    let window_seconds: u64 = 60;
    let (mut env, _admin) = setup();
    let op = Symbol::new("TRADE");
    EmergencyControls::set_rate_limit(&mut env, op, 1, window_seconds).unwrap();
    env.timestamp = window_start;
    assert_eq!(EmergencyControls::check_rate_limit(&mut env, op), Ok(true));
    env.timestamp = now;
    assert_eq!(EmergencyControls::check_rate_limit(&mut env, op), Ok(false));
}

#[test]
fn a_window_lets_the_limit_pass_and_the_next_starts_anew() {
    let (mut env, _admin) = setup();
    let op = Symbol::new("SWAP");
    let other = Symbol::new("STAKE");
    EmergencyControls::set_rate_limit(&mut env, op, 3, 60).unwrap();
    EmergencyControls::set_rate_limit(&mut env, other, 1, 60).unwrap();
    env.timestamp = 1_000;
    let mut passed = 0;
    for second in 0..60u64 {
        env.timestamp = 1_000 + second;
        if EmergencyControls::check_rate_limit(&mut env, op).unwrap() {
            passed += 1;
        }
    }
    assert_eq!(passed, 3);
    assert_eq!(EmergencyControls::get_rate_limit_count(&env, other), 0);
    assert_eq!(EmergencyControls::check_rate_limit(&mut env, other), Ok(true));
    env.timestamp = 1_060;
    assert_eq!(EmergencyControls::check_rate_limit(&mut env, op), Ok(true));
    assert_eq!(EmergencyControls::get_rate_limit_count(&env, op), 1);
}

#[test]
fn a_limit_set_again_takes_the_place_of_the_first() {
    let (mut env, _admin) = setup();
    let op = Symbol::new("SWAP");
    EmergencyControls::set_rate_limit(&mut env, op, 3, 60).unwrap();
    EmergencyControls::set_rate_limit(&mut env, op, 5, 90).unwrap();
    assert_eq!(
        EmergencyControls::get_rate_limit_config(&env, op),
        Some(RateLimitConfig { operation: op, max_calls: 5, window_seconds: 90 })
    );
    assert_eq!(env.rate_limits.len(), 1);
    assert_eq!(
        EmergencyControls::set_rate_limit(&mut env, op, 0, 90),
        Err(Error::InvalidConfiguration)
    );
    assert_eq!(
        EmergencyControls::set_rate_limit(&mut env, op, 1, 0),
        Err(Error::InvalidConfiguration)
    );
    let free = Symbol::new("FREE");
    assert_eq!(EmergencyControls::get_rate_limit_config(&env, free), None);
    assert_eq!(EmergencyControls::check_rate_limit(&mut env, free), Ok(true));
}

// Pausing and safe mode

#[test]
fn a_pause_blocks_and_resuming_lifts_it() {
    let (mut env, admin) = setup();
    let trade = Symbol::new("TRADE");
    assert_eq!(EmergencyControls::pause(&mut env, admin, Symbol::new("fire")), Ok(ok()));
    assert!(EmergencyControls::is_paused(&env));
    assert_eq!(EmergencyControls::get_pause_reason(&env), Symbol::new("fire"));
    assert_eq!(
        EmergencyControls::pause(&mut env, admin, Symbol::new("again")),
        Err(Error::AlreadyPaused)
    );
    assert_eq!(EmergencyControls::validate_operation(&mut env, trade, false, true), Ok(false));
    let last = env.incidents.last().unwrap();
    assert_eq!(last.action_type, IncidentActionType::OperationBlocked);
    assert_eq!(last.description, Symbol::new("OP_BLK"));
    EmergencyControls::unpause(&mut env, Symbol::new("done")).unwrap();
    assert_eq!(EmergencyControls::get_pause_reason(&env), Symbol::new("none"));
    assert_eq!(EmergencyControls::validate_operation(&mut env, trade, false, true), Ok(true));
    assert_eq!(
        EmergencyControls::unpause(&mut env, Symbol::new("again")),
        Err(Error::NotPaused)
    );
}

#[test]
fn safe_mode_blocks_and_ends() {
    let (mut env, admin) = setup();
    let trade = Symbol::new("TRADE");
    EmergencyControls::enter_safe_mode(&mut env, admin, Symbol::new("storm")).unwrap();
    assert!(EmergencyControls::is_safe_mode(&env));
    assert_eq!(EmergencyControls::get_safe_mode_reason(&env), Symbol::new("storm"));
    assert_eq!(
        EmergencyControls::enter_safe_mode(&mut env, admin, Symbol::new("storm")),
        Err(Error::AlreadyInSafeMode)
    );
    assert_eq!(EmergencyControls::validate_operation(&mut env, trade, false, false), Ok(false));
    assert_eq!(EmergencyControls::validate_operation(&mut env, trade, false, true), Ok(true));
    EmergencyControls::exit_safe_mode(&mut env, Symbol::new("over")).unwrap();
    assert_eq!(EmergencyControls::validate_operation(&mut env, trade, false, false), Ok(true));
    assert_eq!(
        EmergencyControls::exit_safe_mode(&mut env, Symbol::new("over")),
        Err(Error::NotInSafeMode)
    );
}

#[test]
fn only_admin_and_guardian_stop() {
    let (mut env, _admin) = setup();
    let guardian = address(&mut env);
    let other = address(&mut env);
    EmergencyControls::set_guardian(&mut env, guardian).unwrap();
    assert_eq!(EmergencyControls::get_guardian(&env), Some(guardian));
    assert_eq!(
        EmergencyControls::pause(&mut env, other, Symbol::new("x")),
        Err(Error::AdminRequired)
    );
    assert_eq!(
        EmergencyControls::enter_safe_mode(&mut env, other, Symbol::new("x")),
        Err(Error::AdminRequired)
    );
    assert_eq!(EmergencyControls::pause(&mut env, guardian, Symbol::new("x")), Ok(ok()));
    assert_eq!(
        EmergencyControls::enter_safe_mode(&mut env, guardian, Symbol::new("x")),
        Ok(ok())
    );
}

// Incidents and notifiers

#[test]
fn incidents_are_kept_up_to_the_limit() {
    let (mut env, _admin) = setup();
    let user = address(&mut env);
    for amount in 1..=205 {
        EmergencyControls::emergency_withdrawal(&mut env, user, amount).unwrap();
    }
    assert_eq!(EmergencyControls::get_incident_count(&env), 200);
    let log = EmergencyControls::get_incident_log(&env, 0);
    assert_eq!(log.len(), 200);
    assert_eq!(log[0].data, 6);
    assert_eq!(log[199].data, 205);
    let newest = EmergencyControls::get_incident_log(&env, 3);
    assert_eq!(newest.len(), 3);
    assert_eq!(newest[0].data, 203);
    EmergencyControls::clear_incident_log(&mut env).unwrap();
    assert_eq!(EmergencyControls::get_incident_count(&env), 0);
}

#[test]
fn notifiers_come_and_go() {
    let (mut env, _admin) = setup();
    let a = address(&mut env);
    let b = address(&mut env);
    EmergencyControls::add_notifier(&mut env, a).unwrap();
    EmergencyControls::add_notifier(&mut env, b).unwrap();
    EmergencyControls::add_notifier(&mut env, a).unwrap();
    assert_eq!(EmergencyControls::get_notifiers_list(&env), vec![a, b]);
    let before = env.events.len();
    let event_type = Symbol::new("PAUSE");
    let severity = IncidentSeverity::High;
    assert_eq!(EmergencyControls::notify(&mut env, event_type, severity, 5), 2);
    assert_eq!(env.events.len(), before + 2);
    assert_eq!(
        env.events[before],
        EmergencyEvent::Notified { notifier: a, event_type, severity, data: 5 }
    );
    EmergencyControls::remove_notifier(&mut env, a).unwrap();
    assert_eq!(EmergencyControls::get_notifiers_list(&env), vec![b]);
}

#[test]
fn there_are_at_most_fifty_notifiers() {
    let (mut env, _admin) = setup();
    for _ in 0..50 {
        let n = address(&mut env);
        EmergencyControls::add_notifier(&mut env, n).unwrap();
    }
    let n = address(&mut env);
    assert_eq!(EmergencyControls::add_notifier(&mut env, n), Err(Error::TooManyNotifiers));
}

// Administration

#[test]
fn the_contract_is_initialized_once_and_handed_over() {
    let mut env = EmergencyEnv::new(0);
    assert_eq!(EmergencyControls::get_admin(&env), Err(Error::NotInitialized));
    assert_eq!(
        EmergencyControls::unpause(&mut env, Symbol::new("x")),
        Err(Error::NotInitialized)
    );
    let admin = address(&mut env);
    let heir = address(&mut env);
    assert_eq!(EmergencyControls::initialize(&mut env, admin), Ok(ok()));
    assert_eq!(EmergencyControls::initialize(&mut env, heir), Err(Error::AlreadyInitialized));
    assert_eq!(EmergencyControls::transfer_admin(&mut env, heir), Ok(ok()));
    assert_eq!(EmergencyControls::get_admin(&env), Ok(heir));
}

#[test]
fn withdrawal_fees_are_rates() {
    let (mut env, _admin) = setup();
    for bad in [-1, 10_001] {
        assert_eq!(
            EmergencyControls::set_emergency_withdrawal_fee(&mut env, bad),
            Err(Error::InvalidConfiguration)
        );
    }
    assert_eq!(EmergencyControls::set_emergency_withdrawal_fee(&mut env, 0), Ok(ok()));
    assert_eq!(EmergencyControls::get_emergency_withdrawal_fee(&env), 0);
}

#[test]
fn a_sink_hears_of_pauses() {
    let (mut env, admin) = setup();
    EmergencyControls::pause(&mut env, admin, Symbol::new("quiet")).unwrap();
    EmergencyControls::unpause(&mut env, Symbol::new("quiet")).unwrap();
    assert!(env.audit_calls.is_empty());
    let sink = address(&mut env);
    EmergencyControls::set_audit_sink(&mut env, sink).unwrap();
    assert_eq!(EmergencyControls::get_audit_sink(&env), Some(sink));
    EmergencyControls::pause(&mut env, admin, Symbol::new("loud")).unwrap();
    assert_eq!(env.audit_calls.len(), 1);
    assert_eq!(env.audit_calls[0].sink, sink);
    assert_eq!(env.audit_calls[0].actor, admin);
    assert_eq!(env.audit_calls[0].event_type, AuditEventType::EmergencyPause);
    assert_eq!(env.audit_calls[0].detail, "pause_activated");
}
