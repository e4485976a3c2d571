//! The numbers by which callers outside know the values of the enums.

use vstd::prelude::*;

use crate::emergency::records::{Error, IncidentActionType, IncidentSeverity};

verus! {

/// These are the numbers of the errors of the contract.
pub proof fn errors_have_their_numbers()
    ensures
        Error::NotInitialized.spec_code() == 1,
        Error::AlreadyInitialized.spec_code() == 2,
        Error::AdminRequired.spec_code() == 3,
        Error::GuardianRequired.spec_code() == 4,
        Error::AlreadyPaused.spec_code() == 5,
        Error::NotPaused.spec_code() == 6,
        Error::AlreadyInSafeMode.spec_code() == 7,
        Error::NotInSafeMode.spec_code() == 8,
        Error::CircuitBreakerTripped.spec_code() == 9,
        Error::TradeSizeExceedsLimit.spec_code() == 10,
        Error::OperationRateLimited.spec_code() == 11,
        Error::InvalidConfiguration.spec_code() == 12,
        Error::ArithmeticOverflow.spec_code() == 13,
        Error::InsufficientBalance.spec_code() == 14,
        Error::LockPeriodNotExpired.spec_code() == 15,
        Error::IncidentLogFull.spec_code() == 16,
        Error::TooManyNotifiers.spec_code() == 17,
        Error::CannotPauseGuardian.spec_code() == 18,
        Error::OperationBlockedBySafeMode.spec_code() == 19,
{
}

/// These are the numbers of the severities of an incident.
pub proof fn severities_have_their_numbers()
    ensures
        IncidentSeverity::Low.spec_code() == 0,
        IncidentSeverity::Medium.spec_code() == 1,
        IncidentSeverity::High.spec_code() == 2,
        IncidentSeverity::Critical.spec_code() == 3,
{
}

/// These are the numbers of the actions on an incident.
pub proof fn incident_actions_have_their_numbers()
    ensures
        IncidentActionType::Pause.spec_code() == 0,
        IncidentActionType::Unpause.spec_code() == 1,
        IncidentActionType::EmergencyWithdrawal.spec_code() == 2,
        IncidentActionType::CircuitBreakerTrip.spec_code() == 3,
        IncidentActionType::CircuitBreakerReset.spec_code() == 4,
        IncidentActionType::SafeModeEnter.spec_code() == 5,
        IncidentActionType::SafeModeExit.spec_code() == 6,
        IncidentActionType::MaxTradeUpdated.spec_code() == 7,
        IncidentActionType::ThresholdUpdated.spec_code() == 8,
        IncidentActionType::RateLimitUpdated.spec_code() == 9,
        IncidentActionType::ConfigUpdated.spec_code() == 10,
        IncidentActionType::TradeBlocked.spec_code() == 11,
        IncidentActionType::OperationBlocked.spec_code() == 12,
{
}

} // verus!
