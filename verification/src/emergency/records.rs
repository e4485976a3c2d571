//! Data types of the emergency controls.

use vstd::prelude::*;

use crate::base::address::Address;
use crate::base::symbol::Symbol;

verus! {

/// Maximum number of incidents retained.
pub const MAX_INCIDENT_LOG: u32 = 200;

/// Maximum number of notifiers.
pub const MAX_NOTIFIERS: u32 = 50;

/// Default circuit breaker threshold: 20%.
pub const DEFAULT_CIRCUIT_THRESHOLD_BPS: i128 = 2000;

/// Default maximum trade size: 100M units.
pub const DEFAULT_MAX_TRADE_AMOUNT: i128 = 100_000_000;

/// Default penalty of an emergency withdrawal: 10%.
pub const DEFAULT_EMERGENCY_WITHDRAWAL_FEE_BPS: i128 = 1000;

/// Default lock period: 24 hours in seconds.
pub const DEFAULT_LOCK_PERIOD: u64 = 86400;

/// Basis-point denominator (100% = 10_000 bps).
pub const BPS_DENOM: i128 = 10_000;

/// Errors returned by the emergency controls.
#[derive(Clone, Copy, Debug, PartialEq, Eq, Structural)]
pub enum Error {
    NotInitialized,
    AlreadyInitialized,
    AdminRequired,
    GuardianRequired,
    AlreadyPaused,
    NotPaused,
    AlreadyInSafeMode,
    NotInSafeMode,
    CircuitBreakerTripped,
    TradeSizeExceedsLimit,
    OperationRateLimited,
    InvalidConfiguration,
    ArithmeticOverflow,
    InsufficientBalance,
    LockPeriodNotExpired,
    IncidentLogFull,
    TooManyNotifiers,
    CannotPauseGuardian,
    OperationBlockedBySafeMode,
}

impl Error {
    /// The number by which a caller outside knows the value.
    pub open spec fn spec_code(self) -> u32 {
        match self {
            Error::NotInitialized => 1,
            Error::AlreadyInitialized => 2,
            Error::AdminRequired => 3,
            Error::GuardianRequired => 4,
            Error::AlreadyPaused => 5,
            Error::NotPaused => 6,
            Error::AlreadyInSafeMode => 7,
            Error::NotInSafeMode => 8,
            Error::CircuitBreakerTripped => 9,
            Error::TradeSizeExceedsLimit => 10,
            Error::OperationRateLimited => 11,
            Error::InvalidConfiguration => 12,
            Error::ArithmeticOverflow => 13,
            Error::InsufficientBalance => 14,
            Error::LockPeriodNotExpired => 15,
            Error::IncidentLogFull => 16,
            Error::TooManyNotifiers => 17,
            Error::CannotPauseGuardian => 18,
            Error::OperationBlockedBySafeMode => 19,
        }
    }

    /// The number by which a caller outside knows the value.
    pub fn code(self) -> (n: u32)
        ensures
            n == self.spec_code(),
    {
        match self {
            Error::NotInitialized => 1,
            Error::AlreadyInitialized => 2,
            Error::AdminRequired => 3,
            Error::GuardianRequired => 4,
            Error::AlreadyPaused => 5,
            Error::NotPaused => 6,
            Error::AlreadyInSafeMode => 7,
            Error::NotInSafeMode => 8,
            Error::CircuitBreakerTripped => 9,
            Error::TradeSizeExceedsLimit => 10,
            Error::OperationRateLimited => 11,
            Error::InvalidConfiguration => 12,
            Error::ArithmeticOverflow => 13,
            Error::InsufficientBalance => 14,
            Error::LockPeriodNotExpired => 15,
            Error::IncidentLogFull => 16,
            Error::TooManyNotifiers => 17,
            Error::CannotPauseGuardian => 18,
            Error::OperationBlockedBySafeMode => 19,
        }
    }
}

/// Severity levels for incident logging.
#[derive(Clone, Copy, Debug, PartialEq, Eq, PartialOrd, Ord, Structural)]
pub enum IncidentSeverity {
    Low,
    Medium,
    High,
    Critical,
}

impl IncidentSeverity {
    /// The number by which a caller outside knows the value.
    pub open spec fn spec_code(self) -> u32 {
        match self {
            IncidentSeverity::Low => 0,
            IncidentSeverity::Medium => 1,
            IncidentSeverity::High => 2,
            IncidentSeverity::Critical => 3,
        }
    }

    /// The number by which a caller outside knows the value.
    pub fn code(self) -> (n: u32)
        ensures
            n == self.spec_code(),
    {
        match self {
            IncidentSeverity::Low => 0,
            IncidentSeverity::Medium => 1,
            IncidentSeverity::High => 2,
            IncidentSeverity::Critical => 3,
        }
    }
}

/// Types of emergency actions that can be logged.
#[derive(Clone, Copy, Debug, PartialEq, Eq, Structural)]
pub enum IncidentActionType {
    Pause,
    Unpause,
    EmergencyWithdrawal,
    CircuitBreakerTrip,
    CircuitBreakerReset,
    SafeModeEnter,
    SafeModeExit,
    MaxTradeUpdated,
    ThresholdUpdated,
    RateLimitUpdated,
    ConfigUpdated,
    TradeBlocked,
    OperationBlocked,
}

impl IncidentActionType {
    /// The number by which a caller outside knows the value.
    pub open spec fn spec_code(self) -> u32 {
        match self {
            IncidentActionType::Pause => 0,
            IncidentActionType::Unpause => 1,
            IncidentActionType::EmergencyWithdrawal => 2,
            IncidentActionType::CircuitBreakerTrip => 3,
            IncidentActionType::CircuitBreakerReset => 4,
            IncidentActionType::SafeModeEnter => 5,
            IncidentActionType::SafeModeExit => 6,
            IncidentActionType::MaxTradeUpdated => 7,
            IncidentActionType::ThresholdUpdated => 8,
            IncidentActionType::RateLimitUpdated => 9,
            IncidentActionType::ConfigUpdated => 10,
            IncidentActionType::TradeBlocked => 11,
            IncidentActionType::OperationBlocked => 12,
        }
    }

    /// The number by which a caller outside knows the value.
    pub fn code(self) -> (n: u32)
        ensures
            n == self.spec_code(),
    {
        match self {
            IncidentActionType::Pause => 0,
            IncidentActionType::Unpause => 1,
            IncidentActionType::EmergencyWithdrawal => 2,
            IncidentActionType::CircuitBreakerTrip => 3,
            IncidentActionType::CircuitBreakerReset => 4,
            IncidentActionType::SafeModeEnter => 5,
            IncidentActionType::SafeModeExit => 6,
            IncidentActionType::MaxTradeUpdated => 7,
            IncidentActionType::ThresholdUpdated => 8,
            IncidentActionType::RateLimitUpdated => 9,
            IncidentActionType::ConfigUpdated => 10,
            IncidentActionType::TradeBlocked => 11,
            IncidentActionType::OperationBlocked => 12,
        }
    }
}

/// A recorded incident in the event log.
#[derive(Clone, Copy, Debug, PartialEq, Eq, Structural)]
pub struct IncidentRecord {
    pub timestamp: u64,
    pub action_type: IncidentActionType,
    pub severity: IncidentSeverity,
    pub initiator: Address,
    pub description: Symbol,
    pub data: i128,
}

impl View for IncidentRecord {
    type V = IncidentRecord;

    open spec fn view(&self) -> IncidentRecord {
        *self
    }
}

/// Rate limit configuration for an operation type.
#[derive(Clone, Copy, Debug, PartialEq, Eq, Structural)]
pub struct RateLimitConfig {
    pub operation: Symbol,
    pub max_calls: u32,
    pub window_seconds: u64,
}

impl View for RateLimitConfig {
    type V = RateLimitConfig;

    open spec fn view(&self) -> RateLimitConfig {
        *self
    }
}

/// Rate limit counter tracking calls in the current window.
#[derive(Clone, Copy, Debug, PartialEq, Eq, Structural)]
pub struct RateLimitCounter {
    pub operation: Symbol,
    pub count: u32,
    pub window_start: u64,
}

impl View for RateLimitCounter {
    type V = RateLimitCounter;

    open spec fn view(&self) -> RateLimitCounter {
        *self
    }
}

/// Snapshot of current emergency system state.
#[derive(Clone, Copy, Debug, PartialEq, Eq, Structural)]
pub struct EmergencyState {
    pub is_paused: bool,
    pub is_safe_mode: bool,
    pub circuit_breaker_tripped: bool,
    pub circuit_threshold_bps: i128,
    pub max_trade_amount: i128,
    pub emergency_withdrawal_fee_bps: i128,
    pub lock_period: u64,
    pub incident_count: u32,
    pub paused_reason: Symbol,
    pub safe_mode_reason: Symbol,
}

impl View for EmergencyState {
    type V = EmergencyState;

    open spec fn view(&self) -> EmergencyState {
        *self
    }
}

} // verus!
