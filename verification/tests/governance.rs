//! Proposals, votes, delegation, the timelock, the treasury and rewards.

use astraport::base::address::Address;
use astraport::base::symbol::Symbol;
use astraport::governance::contract::GovernanceDAO;
use astraport::governance::records::{
    Error, GovernanceConfig, ProposalActionType, ProposalStatus, TreasuryError, VoteDirection,
};
use astraport::governance::state::GovernanceEnv;

/// A new address that signs every call.
fn address(env: &mut GovernanceEnv) -> Address {
    let text = format!("G{:0>55}", env.auths.len() + 1);
    let made = Address::from_text(text.as_bytes());
    env.auths.push(made);
    made
}

fn setup() -> (GovernanceEnv, Address, Address) {
    let mut env = GovernanceEnv::new(0);
    let admin = address(&mut env);
    let guardian = address(&mut env);
    GovernanceDAO::initialize(&mut env, admin, guardian).unwrap();
    (env, admin, guardian)
}

/// Like `setup`, but 100 tokens are enough to propose.
fn setup_with_config() -> (GovernanceEnv, Address, Address, GovernanceConfig) {
    let (mut env, admin, guardian) = setup();
    let config = GovernanceConfig {
        proposal_threshold: 100,
        voting_period: 604_800,
        quorum_threshold_bps: 400,
        approval_threshold_bps: 5_001,
        timelock_delay: 172_800,
        emergency_timelock_delay: 3_600,
        max_treasury_spend_bps: 1_000,
        treasury_multisig_threshold: 2,
        reward_per_participation: 10,
        max_active_proposals: 10,
    };
    GovernanceDAO::set_config(&mut env, admin, config).unwrap();
    (env, admin, guardian, config)
}

fn deposit_and_submit(env: &mut GovernanceEnv, proposer: Address, amount: i128) -> u64 {
    GovernanceDAO::deposit_voting_power(env, proposer, amount).unwrap();
    GovernanceDAO::submit_proposal(
        env,
        proposer,
        Symbol::new("Proposal_1"),
        Symbol::new("Description"),
        ProposalActionType::ParameterChange,
        Symbol::new("payload"),
    )
    .unwrap()
}

// Initialization

#[test]
fn test_initialize_sets_admin_and_guardian() {
    let (env, admin, guardian) = setup();
    assert_eq!(GovernanceDAO::get_admin(&env), Ok(admin));
    assert_eq!(GovernanceDAO::get_guardian(&env), Ok(guardian));
    assert!(!GovernanceDAO::is_emergency_paused(&env));
}

#[test]
fn test_initial_state() {
    let (env, _admin, _guardian) = setup();
    assert_eq!(GovernanceDAO::get_total_supply(&env), 0);
    assert_eq!(GovernanceDAO::get_total_voting_power(&env), 0);
    let summary = GovernanceDAO::get_governance_summary(&env);
    assert_eq!(summary.total_proposals, 0);
    assert_eq!(summary.active_proposals, 0);
    assert_eq!(summary.total_voting_power, 0);
}

#[test]
#[should_panic]
fn test_double_initialize_panics() {
    let (mut env, admin, guardian) = setup();
    GovernanceDAO::initialize(&mut env, admin, guardian).unwrap();
}

// Configuration

#[test]
fn test_set_and_get_config() {
    let (mut env, admin, _guardian) = setup();
    let config = GovernanceConfig {
        proposal_threshold: 500,
        voting_period: 86400,
        quorum_threshold_bps: 1000,
        approval_threshold_bps: 6000,
        timelock_delay: 3600,
        emergency_timelock_delay: 600,
        max_treasury_spend_bps: 500,
        treasury_multisig_threshold: 3,
        reward_per_participation: 25,
        max_active_proposals: 5,
    };
    GovernanceDAO::set_config(&mut env, admin, config).unwrap();
    let stored = GovernanceDAO::get_config(&env);
    assert_eq!(stored.proposal_threshold, 500);
    assert_eq!(stored.voting_period, 86400);
    assert_eq!(stored.quorum_threshold_bps, 1000);
    assert_eq!(stored.approval_threshold_bps, 6000);
    assert_eq!(stored.timelock_delay, 3600);
    assert_eq!(stored.treasury_multisig_threshold, 3);
    assert_eq!(stored.reward_per_participation, 25);
}

#[test]
fn test_set_config_invalid_params_fails() {
    let (mut env, admin, _guardian) = setup();
    let bad_config = GovernanceConfig {
        proposal_threshold: 100,
        voting_period: 0, // Invalid
        quorum_threshold_bps: 400,
        approval_threshold_bps: 5_001,
        timelock_delay: 172_800,
        emergency_timelock_delay: 3_600,
        max_treasury_spend_bps: 1_000,
        treasury_multisig_threshold: 2,
        reward_per_participation: 10,
        max_active_proposals: 10,
    };
    assert_eq!(
        GovernanceDAO::set_config(&mut env, admin, bad_config),
        Err(Error::InvalidConfig)
    );
}

#[test]
fn test_set_config_non_admin_fails() {
    let (mut env, _admin, _guardian) = setup();
    let non_admin = address(&mut env);
    let config = GovernanceConfig {
        proposal_threshold: 100,
        voting_period: 604_800,
        quorum_threshold_bps: 400,
        approval_threshold_bps: 5_001,
        timelock_delay: 172_800,
        emergency_timelock_delay: 3_600,
        max_treasury_spend_bps: 1_000,
        treasury_multisig_threshold: 2,
        reward_per_participation: 10,
        max_active_proposals: 10,
    };
    assert_eq!(
        GovernanceDAO::set_config(&mut env, non_admin, config),
        Err(Error::Unauthorized)
    );
}

#[test]
fn test_set_total_supply() {
    let (mut env, admin, _guardian) = setup();
    GovernanceDAO::set_total_supply(&mut env, admin, 1_000_000).unwrap();
    assert_eq!(GovernanceDAO::get_total_supply(&env), 1_000_000);
}

// Voting power

#[test]
fn test_deposit_voting_power() {
    let (mut env, _admin, _guardian) = setup();
    let voter = address(&mut env);
    let power = GovernanceDAO::deposit_voting_power(&mut env, voter, 500).unwrap();
    assert_eq!(power, 500);
    assert_eq!(GovernanceDAO::get_voting_power(&env, voter), 500);
    assert_eq!(GovernanceDAO::get_total_voting_power(&env), 500);
}

#[test]
fn test_deposit_multiple_times() {
    let (mut env, _admin, _guardian) = setup();
    let voter = address(&mut env);
    GovernanceDAO::deposit_voting_power(&mut env, voter, 200).unwrap();
    GovernanceDAO::deposit_voting_power(&mut env, voter, 300).unwrap();
    assert_eq!(GovernanceDAO::get_voting_power(&env, voter), 500);
    assert_eq!(GovernanceDAO::get_total_voting_power(&env), 500);
}

#[test]
fn test_withdraw_voting_power() {
    let (mut env, _admin, _guardian) = setup();
    let voter = address(&mut env);
    GovernanceDAO::deposit_voting_power(&mut env, voter, 500).unwrap();
    let remaining = GovernanceDAO::withdraw_voting_power(&mut env, voter, 200).unwrap();
    assert_eq!(remaining, 300);
    assert_eq!(GovernanceDAO::get_voting_power(&env, voter), 300);
    assert_eq!(GovernanceDAO::get_total_voting_power(&env), 300);
}

#[test]
fn test_withdraw_all_voting_power() {
    let (mut env, _admin, _guardian) = setup();
    let voter = address(&mut env);
    GovernanceDAO::deposit_voting_power(&mut env, voter, 500).unwrap();
    let remaining = GovernanceDAO::withdraw_voting_power(&mut env, voter, 500).unwrap();
    assert_eq!(remaining, 0);
    assert_eq!(GovernanceDAO::get_voting_power(&env, voter), 0);
    assert_eq!(GovernanceDAO::get_total_voting_power(&env), 0);
}

#[test]
fn test_withdraw_too_much_fails() {
    let (mut env, _admin, _guardian) = setup();
    let voter = address(&mut env);
    GovernanceDAO::deposit_voting_power(&mut env, voter, 100).unwrap();
    assert_eq!(
        GovernanceDAO::withdraw_voting_power(&mut env, voter, 200),
        Err(Error::NoVotingPower)
    );
}

#[test]
fn test_deposit_zero_fails() {
    let (mut env, _admin, _guardian) = setup();
    let voter = address(&mut env);
    assert_eq!(
        GovernanceDAO::deposit_voting_power(&mut env, voter, 0),
        Err(Error::InvalidConfig)
    );
}

// Proposal submission

#[test]
fn test_submit_proposal() {
    let (mut env, _admin, _guardian, _config) = setup_with_config();
    let proposer = address(&mut env);
    let pid = deposit_and_submit(&mut env, proposer, 200);
    assert_eq!(pid, 1);

    let proposal = GovernanceDAO::get_proposal(&env, pid).unwrap();
    assert_eq!(proposal.proposal_id, 1);
    assert_eq!(proposal.proposer, proposer);
    assert_eq!(proposal.status, ProposalStatus::Voting);
    assert_eq!(proposal.votes_for, 0);
    assert_eq!(proposal.votes_against, 0);
    assert_eq!(proposal.voter_count, 0);
}

#[test]
fn test_submit_proposal_insufficient_power_fails() {
    let (mut env, _admin, _guardian) = setup();
    let proposer = address(&mut env);
    // Default threshold is 1000, only deposit 100.
    GovernanceDAO::deposit_voting_power(&mut env, proposer, 100).unwrap();
    assert_eq!(
        GovernanceDAO::submit_proposal(
            &mut env,
            proposer,
            Symbol::new("Title"),
            Symbol::new("Desc"),
            ProposalActionType::ParameterChange,
            Symbol::new("payload"),
        ),
        Err(Error::InsufficientVotingPower)
    );
}

#[test]
fn test_submit_proposal_with_custom_config() {
    let (mut env, _admin, _guardian, _config) = setup_with_config();
    let proposer = address(&mut env);
    // With threshold of 100, 150 should work.
    GovernanceDAO::deposit_voting_power(&mut env, proposer, 150).unwrap();
    let pid = GovernanceDAO::submit_proposal(
        &mut env,
        proposer,
        Symbol::new("Title"),
        Symbol::new("Desc"),
        ProposalActionType::ParameterChange,
        Symbol::new("payload"),
    )
    .unwrap();
    assert_eq!(pid, 1);
}

#[test]
fn test_get_all_proposal_ids() {
    let (mut env, _admin, _guardian) = setup();
    let proposer = address(&mut env);
    GovernanceDAO::deposit_voting_power(&mut env, proposer, 2000).unwrap();
    let p1 = GovernanceDAO::submit_proposal(
        &mut env,
        proposer,
        Symbol::new("P1"),
        Symbol::new("D1"),
        ProposalActionType::ParameterChange,
        Symbol::new("pl1"),
    )
    .unwrap();
    let p2 = GovernanceDAO::submit_proposal(
        &mut env,
        proposer,
        Symbol::new("P2"),
        Symbol::new("D2"),
        ProposalActionType::TreasurySpend,
        Symbol::new("pl2"),
    )
    .unwrap();
    let all = GovernanceDAO::get_all_proposal_ids(&env);
    assert_eq!(all.len(), 2);
    assert_eq!(all.get(0), Some(&p1));
    assert_eq!(all.get(1), Some(&p2));
}

// Voting

#[test]
fn test_cast_vote() {
    let (mut env, _admin, _guardian, _config) = setup_with_config();
    let proposer = address(&mut env);
    let pid = deposit_and_submit(&mut env, proposer, 200);

    let voter = address(&mut env);
    GovernanceDAO::deposit_voting_power(&mut env, voter, 150).unwrap();
    GovernanceDAO::cast_vote(&mut env, voter, pid, VoteDirection::For).unwrap();

    let proposal = GovernanceDAO::get_proposal(&env, pid).unwrap();
    assert_eq!(proposal.votes_for, 150);
    assert_eq!(proposal.voter_count, 1);

    let vote = GovernanceDAO::get_vote(&env, pid, voter).unwrap();
    assert_eq!(vote.direction, VoteDirection::For);
    assert_eq!(vote.weight, 150);
    assert_eq!(vote.voter, voter);
}

#[test]
fn test_cast_vote_against() {
    let (mut env, _admin, _guardian, _config) = setup_with_config();
    let proposer = address(&mut env);
    let pid = deposit_and_submit(&mut env, proposer, 200);

    let voter = address(&mut env);
    GovernanceDAO::deposit_voting_power(&mut env, voter, 100).unwrap();
    GovernanceDAO::cast_vote(&mut env, voter, pid, VoteDirection::Against).unwrap();

    let proposal = GovernanceDAO::get_proposal(&env, pid).unwrap();
    assert_eq!(proposal.votes_against, 100);
}

#[test]
fn test_cast_vote_abstain() {
    let (mut env, _admin, _guardian, _config) = setup_with_config();
    let proposer = address(&mut env);
    let pid = deposit_and_submit(&mut env, proposer, 200);

    let voter = address(&mut env);
    GovernanceDAO::deposit_voting_power(&mut env, voter, 50).unwrap();
    GovernanceDAO::cast_vote(&mut env, voter, pid, VoteDirection::Abstain).unwrap();

    let proposal = GovernanceDAO::get_proposal(&env, pid).unwrap();
    assert_eq!(proposal.votes_abstain, 50);
}

#[test]
fn test_double_vote_fails() {
    let (mut env, _admin, _guardian, _config) = setup_with_config();
    let proposer = address(&mut env);
    let pid = deposit_and_submit(&mut env, proposer, 200);

    let voter = address(&mut env);
    GovernanceDAO::deposit_voting_power(&mut env, voter, 100).unwrap();
    GovernanceDAO::cast_vote(&mut env, voter, pid, VoteDirection::For).unwrap();
    assert_eq!(
        GovernanceDAO::cast_vote(&mut env, voter, pid, VoteDirection::Against),
        Err(Error::AlreadyVoted)
    );
}

#[test]
fn test_vote_on_nonexistent_proposal_fails() {
    let (mut env, _admin, _guardian) = setup();
    let voter = address(&mut env);
    GovernanceDAO::deposit_voting_power(&mut env, voter, 100).unwrap();
    assert_eq!(
        GovernanceDAO::cast_vote(&mut env, voter, 999, VoteDirection::For),
        Err(Error::ProposalNotFound)
    );
}

#[test]
fn test_vote_without_power_fails() {
    let (mut env, _admin, _guardian, _config) = setup_with_config();
    let proposer = address(&mut env);
    let pid = deposit_and_submit(&mut env, proposer, 200);

    let voter = address(&mut env);
    // No deposit.
    assert_eq!(
        GovernanceDAO::cast_vote(&mut env, voter, pid, VoteDirection::For),
        Err(Error::NoVotingPower)
    );
}

#[test]
fn test_vote_after_period_ends_fails() {
    let (mut env, _admin, _guardian, _config) = setup_with_config();
    let proposer = address(&mut env);
    let pid = deposit_and_submit(&mut env, proposer, 200);

    let voter = address(&mut env);
    GovernanceDAO::deposit_voting_power(&mut env, voter, 100).unwrap();

    // Move past voting period.
    env.timestamp = 604_801;

    assert_eq!(
        GovernanceDAO::cast_vote(&mut env, voter, pid, VoteDirection::For),
        Err(Error::VotingAlreadyEnded)
    );
}

// Proposal finalization and quorum

#[test]
fn test_finalize_passed() {
    let (mut env, admin, _guardian, _config) = setup_with_config();
    let proposer = address(&mut env);
    let pid = deposit_and_submit(&mut env, proposer, 200);

    // Set total supply for quorum calculation.
    GovernanceDAO::set_total_supply(&mut env, admin, 10_000).unwrap();

    // Deposit and vote with enough power.
    let voter = address(&mut env);
    GovernanceDAO::deposit_voting_power(&mut env, voter, 500).unwrap();
    GovernanceDAO::cast_vote(&mut env, voter, pid, VoteDirection::For).unwrap();

    // Move past voting period.
    env.timestamp = 604_801;
    let status = GovernanceDAO::finalize_proposal(&mut env, pid).unwrap();
    assert_eq!(status, ProposalStatus::Passed);
}

#[test]
fn test_finalize_defeated_quorum() {
    let (mut env, admin, _guardian, _config) = setup_with_config();
    let proposer = address(&mut env);
    let pid = deposit_and_submit(&mut env, proposer, 200);

    // Set total supply very high so quorum is hard to reach.
    GovernanceDAO::set_total_supply(&mut env, admin, 1_000_000).unwrap();

    let voter = address(&mut env);
    GovernanceDAO::deposit_voting_power(&mut env, voter, 100).unwrap();
    GovernanceDAO::cast_vote(&mut env, voter, pid, VoteDirection::For).unwrap();

    // Not enough total voting power deposited to meet quorum of 4% of 1M.
    env.timestamp = 604_801;
    let status = GovernanceDAO::finalize_proposal(&mut env, pid).unwrap();
    assert_eq!(status, ProposalStatus::Defeated);
}

#[test]
fn test_finalize_defeated_approval() {
    let (mut env, admin, _guardian, _config) = setup_with_config();
    let proposer = address(&mut env);
    let pid = deposit_and_submit(&mut env, proposer, 200);

    // Set total supply so quorum is met.
    GovernanceDAO::set_total_supply(&mut env, admin, 10_000).unwrap();

    // Two voters: one for, one against. Net votes = 200, quorum = 400.
    // 400 >= 400 so quorum is met. But for (100) vs against (100),
    // approval = 200 * 5001 / 10000 = 100. 100 > 100 is false → defeated.
    let voter_for = address(&mut env);
    GovernanceDAO::deposit_voting_power(&mut env, voter_for, 100).unwrap();
    GovernanceDAO::cast_vote(&mut env, voter_for, pid, VoteDirection::For).unwrap();

    let voter_against = address(&mut env);
    GovernanceDAO::deposit_voting_power(&mut env, voter_against, 100).unwrap();
    GovernanceDAO::cast_vote(&mut env, voter_against, pid, VoteDirection::Against).unwrap();

    env.timestamp = 604_801;
    let status = GovernanceDAO::finalize_proposal(&mut env, pid).unwrap();
    assert_eq!(status, ProposalStatus::Defeated);
}

#[test]
fn test_finalize_voting_not_ended_fails() {
    let (mut env, _admin, _guardian, _config) = setup_with_config();
    let proposer = address(&mut env);
    let pid = deposit_and_submit(&mut env, proposer, 200);

    // Still within voting period.
    env.timestamp = 100;
    assert_eq!(
        GovernanceDAO::finalize_proposal(&mut env, pid),
        Err(Error::VotingNotEnded)
    );
}

#[test]
fn test_finalize_already_finalized_fails() {
    let (mut env, admin, _guardian, _config) = setup_with_config();
    let proposer = address(&mut env);
    let pid = deposit_and_submit(&mut env, proposer, 200);

    let voter = address(&mut env);
    GovernanceDAO::deposit_voting_power(&mut env, voter, 500).unwrap();
    GovernanceDAO::cast_vote(&mut env, voter, pid, VoteDirection::For).unwrap();

    GovernanceDAO::set_total_supply(&mut env, admin, 10_000).unwrap();
    env.timestamp = 604_801;
    GovernanceDAO::finalize_proposal(&mut env, pid).unwrap();

    assert_eq!(
        GovernanceDAO::finalize_proposal(&mut env, pid),
        Err(Error::VotingAlreadyEnded)
    );
}

#[test]
fn test_get_quorum_info() {
    let (mut env, admin, _guardian, _config) = setup_with_config();
    let proposer = address(&mut env);
    let pid = deposit_and_submit(&mut env, proposer, 200);

    GovernanceDAO::set_total_supply(&mut env, admin, 10_000).unwrap();
    // Total voting power = 200 (deposited by proposer).
    // 4% of total supply = 400.
    // Votes so far = 0.
    let (total_votes, quorum_required, quorum_met) = GovernanceDAO::get_quorum_info(
        &env,
        pid,
    ).unwrap();
    assert_eq!(total_votes, 0);
    assert_eq!(quorum_required, 400);
    assert!(!quorum_met);
}

// Proposal cancellation

#[test]
fn test_cancel_proposal_by_proposer() {
    let (mut env, _admin, _guardian, _config) = setup_with_config();
    let proposer = address(&mut env);
    let pid = deposit_and_submit(&mut env, proposer, 200);

    let result = GovernanceDAO::cancel_proposal(&mut env, proposer, pid).unwrap();
    assert_eq!(result, Symbol::new("ok"));

    let proposal = GovernanceDAO::get_proposal(&env, pid).unwrap();
    assert_eq!(proposal.status, ProposalStatus::Cancelled);
}

#[test]
fn test_cancel_proposal_by_admin() {
    let (mut env, admin, _guardian, _config) = setup_with_config();
    let proposer = address(&mut env);
    let pid = deposit_and_submit(&mut env, proposer, 200);

    let result = GovernanceDAO::cancel_proposal(&mut env, admin, pid).unwrap();
    assert_eq!(result, Symbol::new("ok"));
}

#[test]
fn test_cancel_proposal_unauthorized_fails() {
    let (mut env, _admin, _guardian, _config) = setup_with_config();
    let proposer = address(&mut env);
    let pid = deposit_and_submit(&mut env, proposer, 200);

    let random = address(&mut env);
    assert_eq!(
        GovernanceDAO::cancel_proposal(&mut env, random, pid),
        Err(Error::CannotCancel)
    );
}

#[test]
fn test_cancel_executed_proposal_fails() {
    let (mut env, admin, _guardian, _config) = setup_with_config();
    let proposer = address(&mut env);
    let pid = deposit_and_submit(&mut env, proposer, 200);

    // Finalize to Passed, then queue and execute.
    GovernanceDAO::set_total_supply(&mut env, admin, 10_000).unwrap();
    let voter = address(&mut env);
    GovernanceDAO::deposit_voting_power(&mut env, voter, 500).unwrap();
    GovernanceDAO::cast_vote(&mut env, voter, pid, VoteDirection::For).unwrap();
    env.timestamp = 604_801;
    GovernanceDAO::finalize_proposal(&mut env, pid).unwrap();
    GovernanceDAO::queue_timelock(&mut env, pid).unwrap();
    env.timestamp = 604_801 + 172_800 + 1;
    let executor = address(&mut env);
    GovernanceDAO::execute_proposal(&mut env, pid, executor).unwrap();

    assert_eq!(
        GovernanceDAO::cancel_proposal(&mut env, proposer, pid),
        Err(Error::CannotCancel)
    );
}

// Delegation

#[test]
fn test_delegate() {
    let (mut env, _admin, _guardian) = setup();
    let delegator = address(&mut env);
    let delegate = address(&mut env);

    let result = GovernanceDAO::delegate(&mut env, delegator, delegate).unwrap();
    assert_eq!(result, Symbol::new("ok"));

    let del = GovernanceDAO::get_delegation(&env, delegator).unwrap();
    assert_eq!(del.delegator, delegator);
    assert_eq!(del.delegate, delegate);
    assert!(del.active);
}

#[test]
fn test_revoke_delegation() {
    let (mut env, _admin, _guardian) = setup();
    let delegator = address(&mut env);
    let delegate = address(&mut env);

    GovernanceDAO::delegate(&mut env, delegator, delegate).unwrap();
    GovernanceDAO::revoke_delegation(&mut env, delegator).unwrap();

    let del = GovernanceDAO::get_delegation(&env, delegator).unwrap();
    assert!(!del.active);
}

#[test]
fn test_revoke_nonexistent_delegation_fails() {
    let (mut env, _admin, _guardian) = setup();
    let delegator = address(&mut env);
    assert_eq!(
        GovernanceDAO::revoke_delegation(&mut env, delegator),
        Err(Error::DelegationNotFound)
    );
}

#[test]
fn test_delegate_to_self_fails() {
    let (mut env, _admin, _guardian) = setup();
    let delegator = address(&mut env);
    assert_eq!(
        GovernanceDAO::delegate(&mut env, delegator, delegator),
        Err(Error::CannotDelegateToSelf)
    );
}

#[test]
fn test_cast_delegated_vote() {
    let (mut env, _admin, _guardian, _config) = setup_with_config();
    let proposer = address(&mut env);
    let pid = deposit_and_submit(&mut env, proposer, 200);

    let token_holder = address(&mut env);
    GovernanceDAO::deposit_voting_power(&mut env, token_holder, 300).unwrap();

    let delegate_addr = address(&mut env);
    GovernanceDAO::delegate(&mut env, token_holder, delegate_addr).unwrap();

    // Delegate casts vote on behalf of token holder.
    GovernanceDAO::cast_delegated_vote(
        &mut env,
        delegate_addr,
        token_holder,
        pid,
        VoteDirection::For,
    )
    .unwrap();

    let proposal = GovernanceDAO::get_proposal(&env, pid).unwrap();
    assert_eq!(proposal.votes_for, 300);
    assert_eq!(proposal.voter_count, 1);

    // The vote record is stored under token_holder's address.
    let vote = GovernanceDAO::get_vote(&env, pid, token_holder).unwrap();
    assert_eq!(vote.weight, 300);
    assert!(vote.is_delegated);
    assert_eq!(vote.voter, delegate_addr);
}

#[test]
fn test_cast_delegated_vote_no_delegation_fails() {
    let (mut env, _admin, _guardian, _config) = setup_with_config();
    let proposer = address(&mut env);
    let pid = deposit_and_submit(&mut env, proposer, 200);

    let token_holder = address(&mut env);
    GovernanceDAO::deposit_voting_power(&mut env, token_holder, 300).unwrap();

    let delegate_addr = address(&mut env);
    // No delegation created.

    assert_eq!(
        GovernanceDAO::cast_delegated_vote(
            &mut env,
            delegate_addr,
            token_holder,
            pid,
            VoteDirection::For,
        ),
        Err(Error::DelegationNotFound)
    );
}

// Timelock and execution

#[test]
fn test_full_proposal_lifecycle() {
    let (mut env, admin, _guardian, _config) = setup_with_config();
    let proposer = address(&mut env);
    let pid = deposit_and_submit(&mut env, proposer, 200);

    GovernanceDAO::set_total_supply(&mut env, admin, 10_000).unwrap();

    // Vote.
    let voter = address(&mut env);
    GovernanceDAO::deposit_voting_power(&mut env, voter, 500).unwrap();
    GovernanceDAO::cast_vote(&mut env, voter, pid, VoteDirection::For).unwrap();

    // Finalize.
    env.timestamp = 604_801;
    let status = GovernanceDAO::finalize_proposal(&mut env, pid).unwrap();
    assert_eq!(status, ProposalStatus::Passed);

    // Queue timelock.
    let result = GovernanceDAO::queue_timelock(&mut env, pid).unwrap();
    assert_eq!(result, Symbol::new("ok"));

    let proposal = GovernanceDAO::get_proposal(&env, pid).unwrap();
    assert_eq!(proposal.status, ProposalStatus::Timelock);

    // Cannot execute yet (timelock not expired).
    let executor = address(&mut env);
    assert_eq!(
        GovernanceDAO::execute_proposal(&mut env, pid, executor),
        Err(Error::TimelockNotExpired)
    );

    // Move past timelock delay.
    env.timestamp = 604_801 + 172_800 + 1;

    // Execute.
    let result = GovernanceDAO::execute_proposal(&mut env, pid, executor).unwrap();
    assert_eq!(result, Symbol::new("ok"));

    let proposal = GovernanceDAO::get_proposal(&env, pid).unwrap();
    assert_eq!(proposal.status, ProposalStatus::Executed);
}

#[test]
fn test_queue_timelock_on_non_passed_fails() {
    let (mut env, _admin, _guardian, _config) = setup_with_config();
    let proposer = address(&mut env);
    let pid = deposit_and_submit(&mut env, proposer, 200);

    // Still in Voting state.
    assert_eq!(
        GovernanceDAO::queue_timelock(&mut env, pid),
        Err(Error::CannotTimelock)
    );
}

#[test]
fn test_execute_before_timelock_expires_fails() {
    let (mut env, admin, _guardian, _config) = setup_with_config();
    let proposer = address(&mut env);
    let pid = deposit_and_submit(&mut env, proposer, 200);

    GovernanceDAO::set_total_supply(&mut env, admin, 10_000).unwrap();
    let voter = address(&mut env);
    GovernanceDAO::deposit_voting_power(&mut env, voter, 500).unwrap();
    GovernanceDAO::cast_vote(&mut env, voter, pid, VoteDirection::For).unwrap();

    env.timestamp = 604_801;
    GovernanceDAO::finalize_proposal(&mut env, pid).unwrap();
    GovernanceDAO::queue_timelock(&mut env, pid).unwrap();

    // Move past voting but not timelock.
    env.timestamp = 604_801 + 1000;

    let executor = address(&mut env);
    assert_eq!(
        GovernanceDAO::execute_proposal(&mut env, pid, executor),
        Err(Error::TimelockNotExpired)
    );
}

#[test]
fn test_execute_non_timelocked_fails() {
    let (mut env, _admin, _guardian, _config) = setup_with_config();
    let proposer = address(&mut env);
    let pid = deposit_and_submit(&mut env, proposer, 200);

    let executor = address(&mut env);
    assert_eq!(
        GovernanceDAO::execute_proposal(&mut env, pid, executor),
        Err(Error::CannotExecute)
    );
}

// Treasury

#[test]
fn test_treasury_deposit() {
    let (mut env, _admin, _guardian) = setup();
    let depositor = address(&mut env);
    let asset = Symbol::new("XLM");

    let balance = GovernanceDAO::treasury_deposit(&mut env, depositor, asset, 10_000).unwrap();
    assert_eq!(balance, 10_000);
    assert_eq!(GovernanceDAO::treasury_balance(&env, asset), 10_000);

    let assets = GovernanceDAO::treasury_all_assets(&env);
    assert_eq!(assets.len(), 1);
    assert_eq!(assets.get(0), Some(&asset));
}

#[test]
fn test_treasury_deposit_multiple_assets() {
    let (mut env, _admin, _guardian) = setup();
    let depositor = address(&mut env);

    GovernanceDAO::treasury_deposit(&mut env, depositor, Symbol::new("XLM"), 5_000).unwrap();
    GovernanceDAO::treasury_deposit(&mut env, depositor, Symbol::new("USDC"), 10_000).unwrap();

    assert_eq!(GovernanceDAO::treasury_balance(&env, Symbol::new("XLM")), 5_000);
    assert_eq!(GovernanceDAO::treasury_balance(&env, Symbol::new("USDC")), 10_000);

    let assets = GovernanceDAO::treasury_all_assets(&env);
    assert_eq!(assets.len(), 2);
}

#[test]
fn test_treasury_request_and_approve() {
    let (mut env, admin, _guardian, _config) = setup_with_config();
    let depositor = address(&mut env);
    let asset = Symbol::new("XLM");
    GovernanceDAO::treasury_deposit(&mut env, depositor, asset, 100_000).unwrap();

    let requester = address(&mut env);
    let recipient = address(&mut env);

    let req_id = GovernanceDAO::treasury_create_request(
        &mut env,
        requester,
        recipient,
        5_000,
        asset,
        Symbol::new("grant"),
    )
    .unwrap();
    assert_eq!(req_id, 1);

    let req = GovernanceDAO::treasury_get_request(&env, req_id).unwrap();
    assert_eq!(req.amount, 5_000);
    assert_eq!(req.recipient, recipient);
    assert!(!req.executed);
    assert_eq!(req.approvals.len(), 0);

    // Need 2 approvals (multisig threshold).
    let signer1 = address(&mut env);
    let signer2 = address(&mut env);
    GovernanceDAO::treasury_add_signer(&mut env, admin, signer1).unwrap();
    GovernanceDAO::treasury_add_signer(&mut env, admin, signer2).unwrap();

    GovernanceDAO::treasury_approve_request(&mut env, signer1, req_id).unwrap();
    let req = GovernanceDAO::treasury_get_request(&env, req_id).unwrap();
    assert_eq!(req.approvals.len(), 1);

    GovernanceDAO::treasury_approve_request(&mut env, signer2, req_id).unwrap();
    let req = GovernanceDAO::treasury_get_request(&env, req_id).unwrap();
    assert_eq!(req.approvals.len(), 2);

    // Execute.
    let amount = GovernanceDAO::treasury_execute_request(&mut env, req_id).unwrap();
    assert_eq!(amount, 5_000);

    assert_eq!(GovernanceDAO::treasury_balance(&env, asset), 95_000);

    let req = GovernanceDAO::treasury_get_request(&env, req_id).unwrap();
    assert!(req.executed);
}

#[test]
fn test_treasury_request_exceeds_limit_fails() {
    let (mut env, _admin, _guardian, _config) = setup_with_config();
    let depositor = address(&mut env);
    let asset = Symbol::new("XLM");
    GovernanceDAO::treasury_deposit(&mut env, depositor, asset, 100_000).unwrap();

    let requester = address(&mut env);
    let recipient = address(&mut env);

    // Try to withdraw 20% (exceeds 10% limit).
    assert_eq!(
        GovernanceDAO::treasury_create_request(
            &mut env,
            requester,
            recipient,
            20_000,
            asset,
            Symbol::new("too_much"),
        ),
        Err(TreasuryError::ExceedsSpendLimit)
    );
}

#[test]
fn test_treasury_execute_insufficient_approvals_fails() {
    let (mut env, admin, _guardian, _config) = setup_with_config();
    let depositor = address(&mut env);
    let asset = Symbol::new("XLM");
    GovernanceDAO::treasury_deposit(&mut env, depositor, asset, 100_000).unwrap();

    let requester = address(&mut env);
    let recipient = address(&mut env);

    let req_id =
        GovernanceDAO::treasury_create_request(
            &mut env,
            requester,
            recipient,
            5_000,
            asset,
            Symbol::new("grant"),
        )
        .unwrap();

    let signer1 = address(&mut env);
    GovernanceDAO::treasury_add_signer(&mut env, admin, signer1).unwrap();
    GovernanceDAO::treasury_approve_request(&mut env, signer1, req_id).unwrap();

    // Only 1 approval, threshold is 2.
    assert_eq!(
        GovernanceDAO::treasury_execute_request(&mut env, req_id),
        Err(TreasuryError::InsufficientApprovals)
    );
}

#[test]
fn test_treasury_signers_management() {
    let (mut env, admin, _guardian) = setup();
    let signer1 = address(&mut env);
    let signer2 = address(&mut env);

    GovernanceDAO::treasury_add_signer(&mut env, admin, signer1).unwrap();
    GovernanceDAO::treasury_add_signer(&mut env, admin, signer2).unwrap();

    let signers = GovernanceDAO::treasury_get_signers(&env);
    assert_eq!(signers.len(), 2);

    GovernanceDAO::treasury_remove_signer(&mut env, admin, signer1).unwrap();
    let signers = GovernanceDAO::treasury_get_signers(&env);
    assert_eq!(signers.len(), 1);
}

// Emergency controls

#[test]
fn test_emergency_pause_by_guardian() {
    let (mut env, _admin, guardian) = setup();
    let result = GovernanceDAO::emergency_pause(&mut env, guardian).unwrap();
    assert_eq!(result, Symbol::new("ok"));
    assert!(GovernanceDAO::is_emergency_paused(&env));
}

#[test]
fn test_emergency_pause_by_admin() {
    let (mut env, admin, _guardian) = setup();
    let result = GovernanceDAO::emergency_pause(&mut env, admin).unwrap();
    assert_eq!(result, Symbol::new("ok"));
    assert!(GovernanceDAO::is_emergency_paused(&env));
}

#[test]
fn test_emergency_pause_unauthorized_fails() {
    let (mut env, _admin, _guardian) = setup();
    let random = address(&mut env);
    assert_eq!(
        GovernanceDAO::emergency_pause(&mut env, random),
        Err(Error::GuardianRequired)
    );
}

#[test]
fn test_emergency_double_pause_fails() {
    let (mut env, _admin, guardian) = setup();
    GovernanceDAO::emergency_pause(&mut env, guardian).unwrap();
    assert_eq!(
        GovernanceDAO::emergency_pause(&mut env, guardian),
        Err(Error::AlreadyPaused)
    );
}

#[test]
fn test_emergency_unpause() {
    let (mut env, admin, guardian) = setup();
    GovernanceDAO::emergency_pause(&mut env, guardian).unwrap();
    assert!(GovernanceDAO::is_emergency_paused(&env));

    let result = GovernanceDAO::emergency_unpause(&mut env, admin).unwrap();
    assert_eq!(result, Symbol::new("ok"));
    assert!(!GovernanceDAO::is_emergency_paused(&env));
}

#[test]
fn test_emergency_unpause_when_not_paused_fails() {
    let (mut env, admin, _guardian) = setup();
    assert_eq!(
        GovernanceDAO::emergency_unpause(&mut env, admin),
        Err(Error::NotPaused)
    );
}

#[test]
fn test_emergency_execute() {
    let (mut env, admin, _guardian, _config) = setup_with_config();
    let proposer = address(&mut env);
    let pid = deposit_and_submit(&mut env, proposer, 200);

    let executor = address(&mut env);
    let result = GovernanceDAO::emergency_execute(&mut env, admin, pid).unwrap();
    assert_eq!(result, Symbol::new("ok"));

    let proposal = GovernanceDAO::get_proposal(&env, pid).unwrap();
    assert_eq!(proposal.status, ProposalStatus::Executed);
}

#[test]
fn test_emergency_execute_requires_both_admin_and_guardian() {
    let (mut env, admin, guardian, _config) = setup_with_config();
    let proposer = address(&mut env);
    let pid = deposit_and_submit(&mut env, proposer, 200);

    // Only admin calls, but guardian must also auth.
    // Since mock_all_auths is on, both will auth.
    // Let's test with a random address that isn't admin or guardian.
    let random = address(&mut env);
    assert_eq!(
        GovernanceDAO::emergency_execute(&mut env, random, pid),
        Err(Error::GuardianRequired)
    );
}

// Rewards

#[test]
fn test_claim_rewards() {
    let (mut env, _admin, _guardian, _config) = setup_with_config();
    let proposer = address(&mut env);
    let pid = deposit_and_submit(&mut env, proposer, 200);

    let voter = address(&mut env);
    GovernanceDAO::deposit_voting_power(&mut env, voter, 100).unwrap();
    GovernanceDAO::cast_vote(&mut env, voter, pid, VoteDirection::For).unwrap();

    let reward = GovernanceDAO::claim_rewards(&mut env, voter, pid).unwrap();
    assert_eq!(reward, 10); // Default reward_per_participation
    assert_eq!(GovernanceDAO::total_rewards_distributed(&env), 10);
    assert!(GovernanceDAO::has_claimed_reward(&env, pid, voter));
}

#[test]
fn test_claim_rewards_double_claim_fails() {
    let (mut env, _admin, _guardian, _config) = setup_with_config();
    let proposer = address(&mut env);
    let pid = deposit_and_submit(&mut env, proposer, 200);

    let voter = address(&mut env);
    GovernanceDAO::deposit_voting_power(&mut env, voter, 100).unwrap();
    GovernanceDAO::cast_vote(&mut env, voter, pid, VoteDirection::For).unwrap();

    GovernanceDAO::claim_rewards(&mut env, voter, pid).unwrap();
    assert_eq!(
        GovernanceDAO::claim_rewards(&mut env, voter, pid),
        Err(Error::RewardAlreadyClaimed)
    );
}

#[test]
fn test_claim_rewards_not_voter_fails() {
    let (mut env, _admin, _guardian, _config) = setup_with_config();
    let proposer = address(&mut env);
    let pid = deposit_and_submit(&mut env, proposer, 200);

    let non_voter = address(&mut env);
    GovernanceDAO::deposit_voting_power(&mut env, non_voter, 100).unwrap();
    // Did not vote.

    assert_eq!(
        GovernanceDAO::claim_rewards(&mut env, non_voter, pid),
        Err(Error::NoVotingPower)
    );
}

// Audit trail

#[test]
fn test_audit_trail_records_actions() {
    let (mut env, _admin, _guardian) = setup();
    let proposer = address(&mut env);
    let pid = deposit_and_submit(&mut env, proposer, 1_000);

    let trail = GovernanceDAO::get_audit_trail(&env);
    assert!(trail.len() >= 1);

    // The first entry should be the submit action.
    let entry = &trail[0];
    assert_eq!(entry.action, Symbol::new("submit"));
    assert_eq!(entry.proposal_id, pid);
    assert_eq!(entry.actor, proposer);
}

#[test]
fn test_audit_trail_for_proposal() {
    let (mut env, _admin, _guardian, _config) = setup_with_config();
    let proposer = address(&mut env);
    let pid = deposit_and_submit(&mut env, proposer, 200);

    let voter = address(&mut env);
    GovernanceDAO::deposit_voting_power(&mut env, voter, 100).unwrap();
    GovernanceDAO::cast_vote(&mut env, voter, pid, VoteDirection::For).unwrap();

    let trail = GovernanceDAO::get_audit_trail_for_proposal(&env, pid);
    assert_eq!(trail.len(), 2);
    assert_eq!(trail[0].action, Symbol::new("submit"));
    assert_eq!(trail[1].action, Symbol::new("vote"));
}

// Governance summary

#[test]
fn test_governance_summary() {
    let (mut env, _admin, guardian) = setup();
    let proposer = address(&mut env);
    GovernanceDAO::deposit_voting_power(&mut env, proposer, 1000).unwrap();

    // Before any proposals.
    let summary = GovernanceDAO::get_governance_summary(&env);
    assert_eq!(summary.total_proposals, 0);
    assert_eq!(summary.active_proposals, 0);
    assert_eq!(summary.total_voting_power, 1000);
    assert_eq!(summary.treasury_balance, 0);
    assert!(!summary.emergency_paused);

    // Submit a proposal.
    let pid = GovernanceDAO::submit_proposal(
        &mut env,
        proposer,
        Symbol::new("P1"),
        Symbol::new("D1"),
        ProposalActionType::ParameterChange,
        Symbol::new("pl1"),
    )
    .unwrap();

    let summary = GovernanceDAO::get_governance_summary(&env);
    assert_eq!(summary.total_proposals, 1);
    assert_eq!(summary.active_proposals, 1);

    // Deposit to treasury.
    let depositor = address(&mut env);
    GovernanceDAO::treasury_deposit(&mut env, depositor, Symbol::new("XLM"), 50_000).unwrap();

    let summary = GovernanceDAO::get_governance_summary(&env);
    assert_eq!(summary.treasury_balance, 50_000);

    // Emergency pause.
    GovernanceDAO::emergency_pause(&mut env, guardian).unwrap();
    let summary = GovernanceDAO::get_governance_summary(&env);
    assert!(summary.emergency_paused);
}

#[test]
fn test_multiple_voters_weighted() {
    let (mut env, admin, _guardian, _config) = setup_with_config();
    let proposer = address(&mut env);
    let pid = deposit_and_submit(&mut env, proposer, 200);

    GovernanceDAO::set_total_supply(&mut env, admin, 10_000).unwrap();

    // 3 voters with different weights.
    let v1 = address(&mut env);
    GovernanceDAO::deposit_voting_power(&mut env, v1, 100).unwrap();
    GovernanceDAO::cast_vote(&mut env, v1, pid, VoteDirection::For).unwrap();

    let v2 = address(&mut env);
    GovernanceDAO::deposit_voting_power(&mut env, v2, 200).unwrap();
    GovernanceDAO::cast_vote(&mut env, v2, pid, VoteDirection::For).unwrap();

    let v3 = address(&mut env);
    GovernanceDAO::deposit_voting_power(&mut env, v3, 50).unwrap();
    GovernanceDAO::cast_vote(&mut env, v3, pid, VoteDirection::Against).unwrap();

    let proposal = GovernanceDAO::get_proposal(&env, pid).unwrap();
    assert_eq!(proposal.votes_for, 300);
    assert_eq!(proposal.votes_against, 50);
    assert_eq!(proposal.voter_count, 3);

    // 350 votes are less than 4% of the total supply.
    env.timestamp = 604_801;
    let status = GovernanceDAO::finalize_proposal(&mut env, pid).unwrap();
    assert_eq!(status, ProposalStatus::Defeated);
}

#[test]
fn test_zero_votes_proposal_defeated() {
    let (mut env, admin, _guardian, _config) = setup_with_config();
    let proposer = address(&mut env);
    let pid = deposit_and_submit(&mut env, proposer, 200);

    GovernanceDAO::set_total_supply(&mut env, admin, 10_000).unwrap();
    // No one votes.

    env.timestamp = 604_801;
    let status = GovernanceDAO::finalize_proposal(&mut env, pid).unwrap();
    assert_eq!(status, ProposalStatus::Defeated);
}

#[test]
fn test_max_active_proposals_enforced() {
    let (mut env, admin, _guardian) = setup();
    let config = GovernanceConfig {
        proposal_threshold: 100,
        voting_period: 604_800,
        quorum_threshold_bps: 400,
        approval_threshold_bps: 5_001,
        timelock_delay: 172_800,
        emergency_timelock_delay: 3_600,
        max_treasury_spend_bps: 1_000,
        treasury_multisig_threshold: 2,
        reward_per_participation: 10,
        max_active_proposals: 2, // Only 2 active proposals allowed.
    };
    GovernanceDAO::set_config(&mut env, admin, config).unwrap();

    let proposer = address(&mut env);
    GovernanceDAO::deposit_voting_power(&mut env, proposer, 1000).unwrap();

    // Submit 2 proposals (should work).
    let p1 = GovernanceDAO::submit_proposal(
        &mut env,
        proposer,
        Symbol::new("P1"),
        Symbol::new("D1"),
        ProposalActionType::ParameterChange,
        Symbol::new("pl1"),
    )
    .unwrap();
    let p2 = GovernanceDAO::submit_proposal(
        &mut env,
        proposer,
        Symbol::new("P2"),
        Symbol::new("D2"),
        ProposalActionType::ParameterChange,
        Symbol::new("pl2"),
    )
    .unwrap();

    // Third should fail.
    assert_eq!(
        GovernanceDAO::submit_proposal(
            &mut env,
            proposer,
            Symbol::new("P3"),
            Symbol::new("D3"),
            ProposalActionType::ParameterChange,
            Symbol::new("pl3"),
        ),
        Err(Error::MaxProposalsReached)
    );

    // Cancel one, then submit again should work.
    GovernanceDAO::cancel_proposal(&mut env, proposer, p1).unwrap();
    let p3 = GovernanceDAO::submit_proposal(
        &mut env,
        proposer,
        Symbol::new("P3"),
        Symbol::new("D3"),
        ProposalActionType::ParameterChange,
        Symbol::new("pl3"),
    )
    .unwrap();
    assert_eq!(p3, 3);
}

// Delegation + voting integration

#[test]
fn test_delegated_voter_can_vote_directly() {
    let (mut env, _admin, _guardian, _config) = setup_with_config();
    let proposer = address(&mut env);
    let pid = deposit_and_submit(&mut env, proposer, 200);

    let token_holder = address(&mut env);
    GovernanceDAO::deposit_voting_power(&mut env, token_holder, 300).unwrap();

    let delegate_addr = address(&mut env);
    GovernanceDAO::delegate(&mut env, token_holder, delegate_addr).unwrap();

    // Token holder can still vote directly.
    GovernanceDAO::cast_vote(&mut env, token_holder, pid, VoteDirection::For).unwrap();

    let proposal = GovernanceDAO::get_proposal(&env, pid).unwrap();
    assert_eq!(proposal.votes_for, 300);
    assert_eq!(proposal.voter_count, 1);
}

// Audit sink

#[test]
fn test_set_get_audit_sink() {
    let (mut env, admin, _guardian) = setup();
    let sink = address(&mut env);
    GovernanceDAO::set_audit_sink(&mut env, admin, sink).unwrap();
    assert_eq!(GovernanceDAO::get_audit_sink(&env), Some(sink));
}
