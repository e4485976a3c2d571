//! Refusals, limits and laws of governance.

use astraport::audit::records::AuditEventType;
use astraport::base::address::Address;
use astraport::base::symbol::Symbol;
use astraport::governance::contract::GovernanceDAO;
use astraport::governance::records::{
    Error, GovernanceConfig, ProposalActionType, ProposalStatus, TimelockError, TimelockStatus,
    TreasuryError, VoteDirection,
};
use astraport::governance::state::GovernanceEnv;
use astraport::governance::timelock;
use astraport::governance::treasury;

/// A new address that signs every call.
fn address(env: &mut GovernanceEnv) -> Address {
    let text = format!("G{:0>55}", env.auths.len() + 1);
    let made = Address::from_text(text.as_bytes());
    env.auths.push(made);
    made
}

fn fresh() -> (GovernanceEnv, Address, Address) {
    let mut env = GovernanceEnv::new(0);
    let admin = address(&mut env);
    let guardian = address(&mut env);
    GovernanceDAO::initialize(&mut env, admin, guardian).unwrap();
    (env, admin, guardian)
}

/// Like `fresh`, but 100 tokens are enough to propose.
fn setup() -> (GovernanceEnv, Address, Address) {
    let (mut env, admin, guardian) = fresh();
    let config = GovernanceConfig {
        proposal_threshold: 100,
        voting_period: 604_800,
        quorum_threshold_bps: 400,
        approval_threshold_bps: 5_001,
        timelock_delay: 172_800,
        emergency_timelock_delay: 3_600,
        max_treasury_spend_bps: 1_000,
        treasury_multisig_threshold: 2,
        reward_per_participation: 10,
        max_active_proposals: 10,
    };
    GovernanceDAO::set_config(&mut env, admin, config).unwrap();
    (env, admin, guardian)
}

fn propose(env: &mut GovernanceEnv, proposer: Address, amount: i128) -> u64 {
    GovernanceDAO::deposit_voting_power(env, proposer, amount).unwrap();
    GovernanceDAO::submit_proposal(
        env,
        proposer,
        Symbol::new("Proposal_1"),
        Symbol::new("Description"),
        ProposalActionType::ParameterChange,
        Symbol::new("payload"),
    )
    .unwrap()
}

/// A voter with the given power.
fn voter(env: &mut GovernanceEnv, power: i128) -> Address {
    let who = address(env);
    GovernanceDAO::deposit_voting_power(env, who, power).unwrap();
    who
}

/// A proposal that has passed.
fn passed(env: &mut GovernanceEnv, admin: Address) -> u64 {
    let proposer = address(env);
    let id = propose(env, proposer, 200);
    GovernanceDAO::set_total_supply(env, admin, 10_000).unwrap();
    let who = voter(env, 500);
    GovernanceDAO::cast_vote(env, who, id, VoteDirection::For).unwrap();
    env.timestamp = 604_801;
    assert_eq!(GovernanceDAO::finalize_proposal(env, id), Ok(ProposalStatus::Passed));
    id
}

/// A request for 5 000 of 100 000 with no approvals yet, and two signers.
fn request(env: &mut GovernanceEnv, admin: Address) -> (u64, Address, Address) {
    let asset = Symbol::new("XLM");
    let who = address(env);
    GovernanceDAO::treasury_deposit(env, who, asset, 100_000).unwrap();
    let id = GovernanceDAO::treasury_create_request(env, who, who, 5_000, asset, asset).unwrap();
    let first = address(env);
    let second = address(env);
    GovernanceDAO::treasury_add_signer(env, admin, first).unwrap();
    GovernanceDAO::treasury_add_signer(env, admin, second).unwrap();
    (id, first, second)
}

// Voting power

#[test]
fn total_power_is_the_sum_and_withdrawing_undoes_depositing() {
    let (mut env, _admin, _guardian) = setup();
    let a = voter(&mut env, 300);
    let b = voter(&mut env, 200);
    GovernanceDAO::deposit_voting_power(&mut env, a, 50).unwrap();
    assert_eq!(GovernanceDAO::withdraw_voting_power(&mut env, a, 50), Ok(300));
    assert_eq!(
        GovernanceDAO::get_total_voting_power(&env),
        GovernanceDAO::get_voting_power(&env, a) + GovernanceDAO::get_voting_power(&env, b)
    );
    assert_eq!(
        GovernanceDAO::deposit_voting_power(&mut env, a, i128::MAX),
        Err(Error::InvalidConfig)
    );
    assert_eq!(
        GovernanceDAO::withdraw_voting_power(&mut env, b, -1),
        Err(Error::InvalidConfig)
    );
}

// Votes

#[test]
fn tokens_vote_once_whoever_casts_the_vote() {
    let (mut env, _admin, _guardian) = setup();
    let proposer = address(&mut env);
    let id = propose(&mut env, proposer, 200);
    let holder = voter(&mut env, 300);
    let delegate = address(&mut env);
    GovernanceDAO::delegate(&mut env, holder, delegate).unwrap();
    GovernanceDAO::cast_delegated_vote(&mut env, delegate, holder, id, VoteDirection::For).unwrap();
    assert_eq!(
        GovernanceDAO::cast_vote(&mut env, holder, id, VoteDirection::Against),
        Err(Error::AlreadyVoted)
    );
    assert_eq!(
        GovernanceDAO::cast_delegated_vote(&mut env, delegate, holder, id, VoteDirection::For),
        Err(Error::AlreadyVoted)
    );
    let proposal = GovernanceDAO::get_proposal(&env, id).unwrap();
    assert_eq!((proposal.votes_for, proposal.voter_count), (300, 1));
}

#[test]
fn revoked_delegates_cannot_vote() {
    let (mut env, _admin, _guardian) = setup();
    let proposer = address(&mut env);
    let id = propose(&mut env, proposer, 200);
    let holder = voter(&mut env, 300);
    let delegate = address(&mut env);
    GovernanceDAO::delegate(&mut env, holder, delegate).unwrap();
    assert_eq!(GovernanceDAO::get_all_delegators(&env), vec![holder]);
    GovernanceDAO::revoke_delegation(&mut env, holder).unwrap();
    assert!(GovernanceDAO::get_all_delegators(&env).is_empty());
    assert_eq!(
        GovernanceDAO::cast_delegated_vote(&mut env, delegate, holder, id, VoteDirection::For),
        Err(Error::DelegationNotFound)
    );
    assert_eq!(GovernanceDAO::get_governance_summary(&env).active_delegations, 0);
}

#[test]
fn weighted_votes_add_up() {
    let (mut env, _admin, _guardian) = setup();
    let proposer = address(&mut env);
    let id = propose(&mut env, proposer, 200);
    let directions = [VoteDirection::For, VoteDirection::For, VoteDirection::Against];
    for (power, direction) in [100, 200, 50].into_iter().zip(directions) {
        let who = voter(&mut env, power);
        GovernanceDAO::cast_vote(&mut env, who, id, direction).unwrap();
    }
    let proposal = GovernanceDAO::get_proposal(&env, id).unwrap();
    assert_eq!(proposal.votes_for, 300);
    assert_eq!(proposal.votes_against, 50);
    assert_eq!(proposal.voter_count, 3);
}

#[test]
fn passing_needs_the_quorum_of_the_supply() {
    for (power, expected) in [(399, ProposalStatus::Defeated), (400, ProposalStatus::Passed)] {
        let (mut env, admin, _guardian) = setup();
        let proposer = address(&mut env);
        let id = propose(&mut env, proposer, 200);
        GovernanceDAO::set_total_supply(&mut env, admin, 10_000).unwrap();
        let who = voter(&mut env, power);
        GovernanceDAO::cast_vote(&mut env, who, id, VoteDirection::For).unwrap();
        assert_eq!(GovernanceDAO::get_quorum_info(&env, id), Ok((power, 400, power >= 400)));
        env.timestamp = 604_801;
        assert_eq!(GovernanceDAO::finalize_proposal(&mut env, id), Ok(expected));
    }
}

#[test]
fn passing_needs_the_approval_threshold() {
    // 50.01 % of 10 000 votes is 5 001.
    for (power, expected) in [(5_000, ProposalStatus::Defeated), (5_001, ProposalStatus::Passed)] {
        let (mut env, _admin, _guardian) = setup();
        let proposer = address(&mut env);
        let id = propose(&mut env, proposer, 200);
        let yes = voter(&mut env, power);
        let no = voter(&mut env, 10_000 - power);
        GovernanceDAO::cast_vote(&mut env, yes, id, VoteDirection::For).unwrap();
        GovernanceDAO::cast_vote(&mut env, no, id, VoteDirection::Against).unwrap();
        env.timestamp = 604_801;
        assert_eq!(GovernanceDAO::finalize_proposal(&mut env, id), Ok(expected));
    }
}

#[test]
fn abstentions_count_for_the_quorum_alone() {
    let (mut env, admin, _guardian) = setup();
    let proposer = address(&mut env);
    let id = propose(&mut env, proposer, 200);
    GovernanceDAO::set_total_supply(&mut env, admin, 10_000).unwrap();
    let quiet = voter(&mut env, 399);
    let yes = voter(&mut env, 1);
    GovernanceDAO::cast_vote(&mut env, quiet, id, VoteDirection::Abstain).unwrap();
    GovernanceDAO::cast_vote(&mut env, yes, id, VoteDirection::For).unwrap();
    env.timestamp = 604_801;
    assert_eq!(GovernanceDAO::finalize_proposal(&mut env, id), Ok(ProposalStatus::Passed));
    assert_eq!(
        GovernanceDAO::cast_vote(&mut env, proposer, id, VoteDirection::For),
        Err(Error::NotVotable)
    );
}

// The timelock

#[test]
fn execution_waits_for_the_full_delay() {
    let (mut env, admin, _guardian) = setup();
    let id = passed(&mut env, admin);
    GovernanceDAO::queue_timelock(&mut env, id).unwrap();
    let entry = timelock::get_entry(&env, id).unwrap();
    assert_eq!(entry.execute_after, 604_801 + 172_800);
    assert_eq!(timelock::get_pending_entries(&env, &vec![id, 7]).len(), 1);
    env.timestamp = 604_801 + 172_799;
    assert_eq!(
        GovernanceDAO::execute_proposal(&mut env, id, admin),
        Err(Error::TimelockNotExpired)
    );
    env.timestamp += 1;
    GovernanceDAO::execute_proposal(&mut env, id, admin).unwrap();
    assert_eq!(timelock::get_entry(&env, id).unwrap().status, TimelockStatus::Executed);
    assert_eq!(
        GovernanceDAO::execute_proposal(&mut env, id, admin),
        Err(Error::CannotExecute)
    );
    assert_eq!(
        GovernanceDAO::emergency_execute(&mut env, admin, id),
        Err(Error::CannotExecute)
    );
}

#[test]
fn cancelled_timelocks_never_execute() {
    let (mut env, admin, guardian) = setup();
    let id = passed(&mut env, admin);
    GovernanceDAO::queue_timelock(&mut env, id).unwrap();
    assert_eq!(timelock::cancel(&mut env, guardian, id), Err(TimelockError::Unauthorized));
    timelock::cancel(&mut env, admin, id).unwrap();
    assert_eq!(timelock::cancel(&mut env, admin, id), Err(TimelockError::AlreadyCancelled));
    env.timestamp += 1_000_000;
    assert_eq!(
        GovernanceDAO::execute_proposal(&mut env, id, admin),
        Err(Error::TimelockNotExpired)
    );
    assert_eq!(timelock::check_ready(&mut env, 99), Err(TimelockError::EntryNotFound));
    assert_eq!(timelock::schedule(&mut env, 1, 0), Err(TimelockError::InvalidDelay));
}

#[test]
fn emergency_proposals_wait_less() {
    let (mut env, admin, _guardian) = setup();
    let proposer = voter(&mut env, 500);
    let id = GovernanceDAO::submit_proposal(
        &mut env,
        proposer,
        Symbol::new("Stop"),
        Symbol::new("Now"),
        ProposalActionType::EmergencyAction,
        Symbol::new("all"),
    )
    .unwrap();
    GovernanceDAO::cast_vote(&mut env, proposer, id, VoteDirection::For).unwrap();
    env.timestamp = 604_801;
    GovernanceDAO::finalize_proposal(&mut env, id).unwrap();
    GovernanceDAO::queue_timelock(&mut env, id).unwrap();
    env.timestamp += 3_600;
    GovernanceDAO::execute_proposal(&mut env, id, admin).unwrap();
    assert_eq!(
        GovernanceDAO::get_proposal(&env, id).unwrap().executed_at,
        604_801 + 3_600
    );
}

// Pausing

#[test]
fn a_pause_blocks_proposals_votes_and_withdrawals() {
    let (mut env, admin, guardian) = setup();
    let proposer = address(&mut env);
    let id = propose(&mut env, proposer, 200);
    let (wanted, first, second) = request(&mut env, admin);
    GovernanceDAO::treasury_approve_request(&mut env, first, wanted).unwrap();
    GovernanceDAO::treasury_approve_request(&mut env, second, wanted).unwrap();
    GovernanceDAO::emergency_pause(&mut env, guardian).unwrap();
    assert_eq!(
        GovernanceDAO::cast_vote(&mut env, proposer, id, VoteDirection::For),
        Err(Error::AlreadyPaused)
    );
    assert_eq!(
        GovernanceDAO::submit_proposal(
            &mut env,
            proposer,
            Symbol::new("T"),
            Symbol::new("D"),
            ProposalActionType::ParameterChange,
            Symbol::new("p"),
        ),
        Err(Error::AlreadyPaused)
    );
    assert_eq!(
        GovernanceDAO::treasury_execute_request(&mut env, wanted),
        Err(TreasuryError::SystemPaused)
    );
    assert_eq!(
        GovernanceDAO::emergency_unpause(&mut env, guardian),
        Err(Error::Unauthorized)
    );
    GovernanceDAO::emergency_unpause(&mut env, admin).unwrap();
    assert_eq!(GovernanceDAO::treasury_execute_request(&mut env, wanted), Ok(5_000));
    GovernanceDAO::cast_vote(&mut env, proposer, id, VoteDirection::For).unwrap();
}

// The treasury

#[test]
fn a_request_is_executed_once_with_enough_approvals() {
    let (mut env, admin, _guardian) = setup();
    let (wanted, first, second) = request(&mut env, admin);
    let stranger = address(&mut env);
    assert_eq!(
        GovernanceDAO::treasury_approve_request(&mut env, stranger, wanted),
        Err(TreasuryError::NotASigner)
    );
    GovernanceDAO::treasury_approve_request(&mut env, first, wanted).unwrap();
    assert_eq!(
        GovernanceDAO::treasury_approve_request(&mut env, first, wanted),
        Err(TreasuryError::AlreadyApproved)
    );
    GovernanceDAO::treasury_approve_request(&mut env, second, wanted).unwrap();
    assert_eq!(GovernanceDAO::treasury_execute_request(&mut env, wanted), Ok(5_000));
    assert_eq!(GovernanceDAO::treasury_balance(&env, Symbol::new("XLM")), 95_000);
    assert_eq!(
        GovernanceDAO::treasury_execute_request(&mut env, wanted),
        Err(TreasuryError::AlreadyExecuted)
    );
    assert_eq!(
        GovernanceDAO::treasury_execute_request(&mut env, 77),
        Err(TreasuryError::RequestNotFound)
    );
}

#[test]
fn a_cancelled_request_never_executes() {
    let (mut env, admin, guardian) = setup();
    let (wanted, first, _second) = request(&mut env, admin);
    assert_eq!(
        treasury::cancel_request(&mut env, guardian, wanted),
        Err(TreasuryError::NotASigner)
    );
    treasury::cancel_request(&mut env, admin, wanted).unwrap();
    assert_eq!(
        GovernanceDAO::treasury_approve_request(&mut env, first, wanted),
        Err(TreasuryError::AlreadyExecuted)
    );
    assert_eq!(
        GovernanceDAO::treasury_execute_request(&mut env, wanted),
        Err(TreasuryError::AlreadyExecuted)
    );
    assert_eq!(GovernanceDAO::treasury_balance(&env, Symbol::new("XLM")), 100_000);
}

#[test]
fn spending_is_limited_to_a_tenth() {
    let (mut env, _admin, _guardian) = setup();
    let asset = Symbol::new("XLM");
    let who = address(&mut env);
    assert_eq!(
        GovernanceDAO::treasury_deposit(&mut env, who, asset, 0),
        Err(TreasuryError::InvalidAmount)
    );
    GovernanceDAO::treasury_deposit(&mut env, who, asset, 100_009).unwrap();
    assert_eq!(
        GovernanceDAO::treasury_create_request(&mut env, who, who, 10_001, asset, asset),
        Err(TreasuryError::ExceedsSpendLimit)
    );
    assert_eq!(
        GovernanceDAO::treasury_create_request(&mut env, who, who, 10_000, asset, asset),
        Ok(1)
    );
    assert_eq!(
        GovernanceDAO::treasury_deposit(&mut env, who, asset, i128::MAX),
        Err(TreasuryError::InsufficientBalance)
    );
}

// Rewards and the trail

#[test]
fn a_reward_is_claimed_once() {
    let (mut env, _admin, _guardian) = setup();
    let proposer = address(&mut env);
    let id = propose(&mut env, proposer, 200);
    GovernanceDAO::cast_vote(&mut env, proposer, id, VoteDirection::Abstain).unwrap();
    assert_eq!(GovernanceDAO::claim_rewards(&mut env, proposer, id), Ok(10));
    assert_eq!(
        GovernanceDAO::claim_rewards(&mut env, proposer, id),
        Err(Error::RewardAlreadyClaimed)
    );
    assert_eq!(GovernanceDAO::total_rewards_distributed(&env), 10);
}

#[test]
fn the_trail_is_numbered_without_gaps() {
    let (mut env, _admin, _guardian) = setup();
    let a = address(&mut env);
    let b = address(&mut env);
    for _ in 0..5 {
        GovernanceDAO::delegate(&mut env, a, b).unwrap();
        GovernanceDAO::revoke_delegation(&mut env, a).unwrap();
    }
    let trail = GovernanceDAO::get_audit_trail(&env);
    assert_eq!(trail.len(), 11);
    for pair in trail.windows(2) {
        assert_eq!(pair[1].seq, pair[0].seq + 1);
    }
}

#[test]
fn a_sink_is_told_of_a_proposal() {
    let (mut env, admin, _guardian) = setup();
    let ok = Symbol::new("ok");
    assert!(GovernanceDAO::log_audit_if_configured(&env, admin, 3, ok, "set").is_none());
    let sink = address(&mut env);
    GovernanceDAO::set_audit_sink(&mut env, admin, sink).unwrap();
    let call = GovernanceDAO::log_audit_if_configured(&env, admin, 3, ok, "set").unwrap();
    assert_eq!(call.sink, sink);
    assert_eq!(call.event_type, AuditEventType::AdminAction);
    assert_eq!(call.portfolio, Symbol::new("gov"));
    assert_eq!(call.state_before.fields[0].key, Symbol::new("prpid"));
    assert_eq!(call.state_before.fields[0].value, 3);
    assert_eq!(call.detail, "set");
}

// Refusals

#[test]
fn proposals_are_looked_up_and_cancelled_in_time() {
    let (mut env, admin, _guardian) = setup();
    assert_eq!(GovernanceDAO::get_proposal(&env, 9), Err(Error::ProposalNotFound));
    assert_eq!(
        GovernanceDAO::finalize_proposal(&mut env, 9),
        Err(Error::ProposalNotFound)
    );
    assert_eq!(
        GovernanceDAO::cancel_proposal(&mut env, admin, 9),
        Err(Error::ProposalNotFound)
    );
    let id = passed(&mut env, admin);
    assert_eq!(GovernanceDAO::cancel_proposal(&mut env, admin, id), Err(Error::CannotCancel));
}

#[test]
fn nothing_administrative_works_before_initializing() {
    let mut env = GovernanceEnv::new(0);
    let who = address(&mut env);
    assert_eq!(GovernanceDAO::get_admin(&env), Err(Error::NotInitialized));
    assert_eq!(GovernanceDAO::get_guardian(&env), Err(Error::NotInitialized));
    assert_eq!(
        GovernanceDAO::set_total_supply(&mut env, who, 5),
        Err(Error::NotInitialized)
    );
    assert_eq!(GovernanceDAO::emergency_pause(&mut env, who), Err(Error::NotInitialized));
    GovernanceDAO::initialize(&mut env, who, who).unwrap();
    assert_eq!(
        GovernanceDAO::initialize(&mut env, who, who),
        Err(Error::AlreadyInitialized)
    );
    assert_eq!(Error::AlreadyInitialized.code(), 3);
    assert_eq!(TreasuryError::SystemPaused.code(), 10);
    assert_eq!(TimelockError::Unauthorized.code(), 6);
}

#[test]
fn configurations_are_checked() {
    let (mut env, admin, _guardian) = setup();
    let good = GovernanceDAO::get_config(&env);
    let bad = [
        GovernanceConfig { quorum_threshold_bps: 0, ..good },
        GovernanceConfig { quorum_threshold_bps: 10_001, ..good },
        GovernanceConfig { approval_threshold_bps: 0, ..good },
        GovernanceConfig { approval_threshold_bps: 10_001, ..good },
        GovernanceConfig { treasury_multisig_threshold: 0, ..good },
        GovernanceConfig { max_active_proposals: 0, ..good },
    ];
    for config in bad {
        assert_eq!(
            GovernanceDAO::set_config(&mut env, admin, config),
            Err(Error::InvalidConfig)
        );
    }
    assert_eq!(GovernanceDAO::get_config(&env), good);
}

#[test]
fn unanimity_can_be_asked_for() {
    let (mut env, admin, _guardian) = setup();
    let config = GovernanceConfig {
        approval_threshold_bps: 10_000,
        ..GovernanceDAO::get_config(&env)
    };
    GovernanceDAO::set_config(&mut env, admin, config).unwrap();
    GovernanceDAO::set_total_supply(&mut env, admin, 1_000).unwrap();
    let proposer = address(&mut env);
    let id = propose(&mut env, proposer, 1_000);
    GovernanceDAO::cast_vote(&mut env, proposer, id, VoteDirection::For).unwrap();
    env.timestamp = 604_801;
    assert_eq!(GovernanceDAO::finalize_proposal(&mut env, id), Ok(ProposalStatus::Passed));
}

#[test]
fn initializing_keeps_what_was_deposited() {
    let mut env = GovernanceEnv::new(0);
    let holder = address(&mut env);
    let admin = address(&mut env);
    GovernanceDAO::deposit_voting_power(&mut env, holder, 3_000).unwrap();
    let id = propose(&mut env, holder, 1_000);
    GovernanceDAO::delegate(&mut env, holder, admin).unwrap();
    GovernanceDAO::initialize(&mut env, admin, admin).unwrap();
    assert_eq!(GovernanceDAO::get_total_voting_power(&env), 4_000);
    assert_eq!(GovernanceDAO::get_all_proposal_ids(&env), vec![id]);
    assert_eq!(GovernanceDAO::get_all_delegators(&env), vec![holder]);
    assert_eq!(GovernanceDAO::withdraw_voting_power(&mut env, holder, 1_000), Ok(3_000));
    assert_eq!(GovernanceDAO::get_total_voting_power(&env), 3_000);
    assert_eq!(propose(&mut env, holder, 1), id + 1);
}

#[test]
fn tallies_are_those_of_the_recorded_votes() {
    let (mut env, _admin, _guardian) = setup();
    let proposer = address(&mut env);
    let id = propose(&mut env, proposer, 200);
    let own = voter(&mut env, 70);
    let holder = voter(&mut env, 30);
    let delegate = address(&mut env);
    GovernanceDAO::delegate(&mut env, holder, delegate).unwrap();
    GovernanceDAO::cast_vote(&mut env, own, id, VoteDirection::For).unwrap();
    GovernanceDAO::cast_delegated_vote(&mut env, delegate, holder, id, VoteDirection::Against)
        .unwrap();
    for who in [own, holder] {
        assert_eq!(
            GovernanceDAO::cast_vote(&mut env, who, id, VoteDirection::Abstain),
            Err(Error::AlreadyVoted)
        );
    }
    let proposal = GovernanceDAO::get_proposal(&env, id).unwrap();
    let weights: Vec<i128> = [own, holder]
        .into_iter()
        .map(|who| GovernanceDAO::get_vote(&env, id, who).unwrap().weight)
        .collect();
    assert_eq!((proposal.votes_for, proposal.votes_against), (weights[0], weights[1]));
    assert_eq!((proposal.votes_abstain, proposal.voter_count), (0, 2));
}

#[test]
fn deposited_power_can_be_withdrawn_in_full() {
    let (mut env, _admin, _guardian) = setup();
    let holder = voter(&mut env, 100);
    let other = voter(&mut env, 40);
    assert_eq!(
        GovernanceDAO::withdraw_voting_power(&mut env, holder, 101),
        Err(Error::NoVotingPower)
    );
    assert_eq!(GovernanceDAO::withdraw_voting_power(&mut env, holder, 60), Ok(40));
    assert_eq!(GovernanceDAO::withdraw_voting_power(&mut env, holder, 40), Ok(0));
    assert_eq!(GovernanceDAO::withdraw_voting_power(&mut env, other, 40), Ok(0));
    assert_eq!(GovernanceDAO::get_total_voting_power(&env), 0);
}
