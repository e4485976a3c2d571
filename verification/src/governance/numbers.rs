//! The numbers by which callers outside know the values of the enums.

use vstd::prelude::*;

use crate::governance::records::{Error, ProposalActionType, ProposalStatus, TimelockError, TimelockStatus, TreasuryError, VoteDirection};

verus! {

/// These are the numbers of the states of a proposal.
pub proof fn proposal_states_have_their_numbers()
    ensures
        ProposalStatus::Submitted.spec_code() == 0,
        ProposalStatus::Voting.spec_code() == 1,
        ProposalStatus::Passed.spec_code() == 2,
        ProposalStatus::Defeated.spec_code() == 3,
        ProposalStatus::Timelock.spec_code() == 4,
        ProposalStatus::Executed.spec_code() == 5,
        ProposalStatus::Cancelled.spec_code() == 6,
        ProposalStatus::ExecutionFailed.spec_code() == 7,
{
}

/// These are the numbers of the actions of a proposal.
pub proof fn actions_have_their_numbers()
    ensures
        ProposalActionType::ParameterChange.spec_code() == 0,
        ProposalActionType::TreasurySpend.spec_code() == 1,
        ProposalActionType::ProtocolUpgrade.spec_code() == 2,
        ProposalActionType::EmergencyAction.spec_code() == 3,
        ProposalActionType::RewardDistribution.spec_code() == 4,
        ProposalActionType::Custom.spec_code() == 99,
{
}

/// These are the numbers of the directions of a vote.
pub proof fn directions_have_their_numbers()
    ensures
        VoteDirection::For.spec_code() == 0,
        VoteDirection::Against.spec_code() == 1,
        VoteDirection::Abstain.spec_code() == 2,
{
}

/// These are the numbers of the states of a timelock.
pub proof fn timelock_states_have_their_numbers()
    ensures
        TimelockStatus::Pending.spec_code() == 0,
        TimelockStatus::Ready.spec_code() == 1,
        TimelockStatus::Executed.spec_code() == 2,
        TimelockStatus::Cancelled.spec_code() == 3,
{
}

/// These are the numbers of the errors of the contract.
pub proof fn errors_have_their_numbers()
    ensures
        Error::NotInitialized.spec_code() == 1,
        Error::Unauthorized.spec_code() == 2,
        Error::AlreadyInitialized.spec_code() == 3,
        Error::InsufficientVotingPower.spec_code() == 4,
        Error::ProposalNotFound.spec_code() == 5,
        Error::NotVotable.spec_code() == 6,
        Error::AlreadyVoted.spec_code() == 7,
        Error::InvalidVoteDirection.spec_code() == 8,
        Error::VotingNotEnded.spec_code() == 9,
        Error::VotingAlreadyEnded.spec_code() == 10,
        Error::QuorumNotReached.spec_code() == 11,
        Error::ApprovalNotReached.spec_code() == 12,
        Error::CannotTimelock.spec_code() == 13,
        Error::TimelockNotExpired.spec_code() == 14,
        Error::CannotExecute.spec_code() == 15,
        Error::CannotCancel.spec_code() == 16,
        Error::DelegationNotFound.spec_code() == 17,
        Error::CannotDelegateToSelf.spec_code() == 18,
        Error::NoVotingPower.spec_code() == 19,
        Error::RewardAlreadyClaimed.spec_code() == 20,
        Error::InvalidConfig.spec_code() == 21,
        Error::MaxProposalsReached.spec_code() == 22,
        Error::GuardianRequired.spec_code() == 23,
        Error::NotPaused.spec_code() == 24,
        Error::AlreadyPaused.spec_code() == 25,
{
}

/// These are the numbers of the errors of the timelock.
pub proof fn timelock_errors_have_their_numbers()
    ensures
        TimelockError::EntryNotFound.spec_code() == 1,
        TimelockError::DelayNotExpired.spec_code() == 2,
        TimelockError::AlreadyExecuted.spec_code() == 3,
        TimelockError::AlreadyCancelled.spec_code() == 4,
        TimelockError::InvalidDelay.spec_code() == 5,
        TimelockError::Unauthorized.spec_code() == 6,
{
}

/// These are the numbers of the errors of the treasury.
pub proof fn treasury_errors_have_their_numbers()
    ensures
        TreasuryError::InsufficientBalance.spec_code() == 1,
        TreasuryError::RequestNotFound.spec_code() == 2,
        TreasuryError::AlreadyExecuted.spec_code() == 3,
        TreasuryError::NotASigner.spec_code() == 4,
        TreasuryError::AlreadyApproved.spec_code() == 5,
        TreasuryError::InsufficientApprovals.spec_code() == 6,
        TreasuryError::ExceedsSpendLimit.spec_code() == 7,
        TreasuryError::InvalidAmount.spec_code() == 8,
        TreasuryError::RequestCancelled.spec_code() == 9,
        TreasuryError::SystemPaused.spec_code() == 10,
{
}

} // verus!
