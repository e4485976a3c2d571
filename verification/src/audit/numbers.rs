//! The numbers by which callers outside know the values of the enums.

use vstd::prelude::*;

use crate::audit::records::{AuditEventType, Error};

verus! {

/// These are the numbers of the errors of the contract.
pub proof fn errors_have_their_numbers()
    ensures
        Error::NotInitialized.spec_code() == 1,
        Error::Unauthorized.spec_code() == 2,
        Error::InvalidEvent.spec_code() == 3,
        Error::NoRetentionPolicy.spec_code() == 4,
        Error::AlreadyInitialized.spec_code() == 5,
{
}

/// These are the numbers of the types of an event.
pub proof fn event_types_have_their_numbers()
    ensures
        AuditEventType::Rebalance.spec_code() == 0,
        AuditEventType::Stake.spec_code() == 1,
        AuditEventType::Unstake.spec_code() == 2,
        AuditEventType::EmergencyUnstake.spec_code() == 3,
        AuditEventType::YieldAccrual.spec_code() == 4,
        AuditEventType::Deposit.spec_code() == 5,
        AuditEventType::Withdrawal.spec_code() == 6,
        AuditEventType::ScheduleChange.spec_code() == 7,
        AuditEventType::AdminAction.spec_code() == 8,
        AuditEventType::PortfolioCreated.spec_code() == 9,
        AuditEventType::RoleChange.spec_code() == 10,
        AuditEventType::YieldClaim.spec_code() == 11,
        AuditEventType::GovernanceProposal.spec_code() == 12,
        AuditEventType::GovernanceVote.spec_code() == 13,
        AuditEventType::TreasuryAction.spec_code() == 14,
        AuditEventType::EmergencyPause.spec_code() == 15,
        AuditEventType::TradeExecution.spec_code() == 16,
        AuditEventType::OrderPlaced.spec_code() == 17,
        AuditEventType::OrderCancelled.spec_code() == 18,
        AuditEventType::FeeCollection.spec_code() == 19,
        AuditEventType::Custom.spec_code() == 99,
{
}

} // verus!
