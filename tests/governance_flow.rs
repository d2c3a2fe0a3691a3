use iamai_dao::address::Address;
use iamai_dao::governance::{
    create_proposal, execute_proposal, finalize_proposal, initialize_governance, vote_on_proposal,
    CreateProposal, ErrorCode, ExecuteProposal, FinalizeProposal, Governance, InitializeGovernance,
    Proposal, ProposalStatus, ProposalType, VoteOnProposal, VoteRecord,
};

fn addr(n: u128) -> Address {
    Address::new(0, n)
}

fn governance(min_tokens: u64, quorum: u8, delay: i64) -> Governance {
    initialize_governance(&InitializeGovernance { token_mint: addr(1), authority: addr(2) }, min_tokens, quorum, delay)
}

fn open_proposal(gov: &mut Governance, now: i64, period: i64) -> Proposal {
    let ctx = CreateProposal { governance: addr(10), proposer: addr(11), proposer_balance: 1000 };
    create_proposal(gov, &ctx, now, "Fund".to_string(), "Fund the grants".to_string(), ProposalType::Treasury, period)
        .unwrap()
}

fn vote(p: &mut Proposal, votes: &mut Vec<VoteRecord>, voter: u128, balance: u64, now: i64, support: bool, power: u64) -> Result<(), ErrorCode> {
    let ctx = VoteOnProposal { proposal: addr(100), voter: addr(voter), voter_balance: balance };
    vote_on_proposal(p, votes, &ctx, now, support, power)
}

#[test]
fn create_proposal_sets_window_and_counts() {
    let mut gov = governance(100, 10, 60);
    let p = open_proposal(&mut gov, 1_000, 500);
    assert_eq!(gov.proposal_count, 1);
    assert_eq!(p.start_time, 1_000);
    assert_eq!(p.end_time, 1_500);
    assert_eq!(p.status, ProposalStatus::Active);
    assert_eq!(p.title, "Fund");
    assert_eq!(p.total_votes, 0);
    assert!(!p.quorum_reached);
}

#[test]
fn create_proposal_needs_min_tokens() {
    let mut gov = governance(100, 10, 60);
    let ctx = CreateProposal { governance: addr(10), proposer: addr(11), proposer_balance: 50 };
    let r = create_proposal(&mut gov, &ctx, 0, "t".to_string(), "d".to_string(), ProposalType::Community, 10);
    assert!(matches!(r, Err(ErrorCode::InsufficientTokensForProposal)));
    assert_eq!(gov.proposal_count, 0);
}

#[test]
fn create_proposal_rejects_time_overflow() {
    let mut gov = governance(0, 10, 60);
    let ctx = CreateProposal { governance: addr(10), proposer: addr(11), proposer_balance: 0 };
    let r = create_proposal(&mut gov, &ctx, i64::MAX - 5, "t".to_string(), "d".to_string(), ProposalType::Technical, 10);
    assert!(matches!(r, Err(ErrorCode::ArithmeticOverflow)));
    assert_eq!(gov.proposal_count, 0);
}

#[test]
fn voter_with_more_power_than_balance_fails() {
    let mut gov = governance(100, 10, 60);
    let mut p = open_proposal(&mut gov, 0, 100);
    let mut votes = Vec::new();
    assert_eq!(vote(&mut p, &mut votes, 20, 100, 10, true, 150), Err(ErrorCode::InsufficientVotingPower));
    assert_eq!(vote(&mut p, &mut votes, 21, 50, 10, true, 50), Ok(()));
    assert_eq!(p.votes_for, 50);
    assert!(votes.len() == 1);
}

#[test]
fn second_vote_by_same_voter_fails() {
    let mut gov = governance(100, 10, 60);
    let mut p = open_proposal(&mut gov, 0, 100);
    let mut votes = Vec::new();
    assert_eq!(vote(&mut p, &mut votes, 20, 100, 10, true, 40), Ok(()));
    assert_eq!(vote(&mut p, &mut votes, 20, 100, 11, false, 10), Err(ErrorCode::AlreadyVoted));
    assert_eq!(votes.len(), 1);
    assert_eq!(votes[0], VoteRecord { voter: addr(20), proposal: addr(100), support: true, voting_power: 40, has_voted: true });
    assert_eq!(p.total_votes, 40);
}

#[test]
fn tally_sums_both_sides() {
    let mut gov = governance(100, 10, 60);
    let mut p = open_proposal(&mut gov, 0, 100);
    let mut votes = Vec::new();
    vote(&mut p, &mut votes, 20, 100, 0, true, 70).unwrap();
    vote(&mut p, &mut votes, 21, 100, 50, false, 30).unwrap();
    vote(&mut p, &mut votes, 22, 100, 100, true, 5).unwrap();
    assert_eq!(p.votes_for, 75);
    assert_eq!(p.votes_against, 30);
    assert_eq!(p.total_votes, p.votes_for + p.votes_against);
}

#[test]
fn vote_outside_window_fails() {
    let mut gov = governance(100, 10, 60);
    let mut p = open_proposal(&mut gov, 10, 100);
    let mut votes = Vec::new();
    assert_eq!(vote(&mut p, &mut votes, 20, 100, 9, true, 1), Err(ErrorCode::VotingPeriodEnded));
    assert_eq!(vote(&mut p, &mut votes, 20, 100, 111, true, 1), Err(ErrorCode::VotingPeriodEnded));
    assert!(votes.is_empty());
}

#[test]
fn finalize_passes_with_quorum_and_majority() {
    let mut gov = governance(100, 10, 60);
    let mut p = open_proposal(&mut gov, 0, 100);
    let mut votes = Vec::new();
    vote(&mut p, &mut votes, 20, 1000, 5, true, 70).unwrap();
    vote(&mut p, &mut votes, 21, 1000, 5, false, 30).unwrap();
    let ctx = FinalizeProposal { total_supply: 1000 };
    assert_eq!(finalize_proposal(&gov, &mut p, &ctx, 100), Err(ErrorCode::VotingPeriodNotEnded));
    assert_eq!(finalize_proposal(&gov, &mut p, &ctx, 101), Ok(()));
    assert!(p.quorum_reached);
    assert_eq!(p.status, ProposalStatus::Passed);
    assert_eq!(p.execution_time, 161);
    assert_eq!(finalize_proposal(&gov, &mut p, &ctx, 200), Err(ErrorCode::ProposalNotActive));
    assert_eq!(p.status, ProposalStatus::Passed);
}

#[test]
fn finalize_rejects_without_quorum() {
    let mut gov = governance(100, 10, 60);
    let mut p = open_proposal(&mut gov, 0, 100);
    let mut votes = Vec::new();
    vote(&mut p, &mut votes, 20, 1000, 5, true, 99).unwrap();
    // 10% of 1000 is 100: 99 votes fall short.
    finalize_proposal(&gov, &mut p, &FinalizeProposal { total_supply: 1000 }, 101).unwrap();
    assert!(!p.quorum_reached);
    assert_eq!(p.status, ProposalStatus::Rejected);
    assert_eq!(finalize_proposal(&gov, &mut p, &FinalizeProposal { total_supply: 1000 }, 300), Err(ErrorCode::ProposalNotActive));
}

#[test]
fn finalize_rejects_tie() {
    let mut gov = governance(100, 10, 60);
    let mut p = open_proposal(&mut gov, 0, 100);
    let mut votes = Vec::new();
    vote(&mut p, &mut votes, 20, 1000, 5, true, 100).unwrap();
    vote(&mut p, &mut votes, 21, 1000, 5, false, 100).unwrap();
    finalize_proposal(&gov, &mut p, &FinalizeProposal { total_supply: 1000 }, 101).unwrap();
    assert!(p.quorum_reached);
    assert_eq!(p.status, ProposalStatus::Rejected);
}

#[test]
fn finalize_quorum_uses_live_supply() {
    let mut gov = governance(100, 50, 0);
    let mut p = open_proposal(&mut gov, 0, 10);
    let mut votes = Vec::new();
    vote(&mut p, &mut votes, 20, u64::MAX, 5, true, 500).unwrap();
    let mut q = p.clone();
    finalize_proposal(&gov, &mut p, &FinalizeProposal { total_supply: 1000 }, 11).unwrap();
    assert!(p.quorum_reached);
    finalize_proposal(&gov, &mut q, &FinalizeProposal { total_supply: 1002 }, 11).unwrap();
    assert!(!q.quorum_reached);
    assert_eq!(q.status, ProposalStatus::Rejected);
}

#[test]
fn execute_after_delay_once() {
    let mut gov = governance(100, 0, 60);
    let mut p = open_proposal(&mut gov, 0, 100);
    let mut votes = Vec::new();
    vote(&mut p, &mut votes, 20, 1000, 5, true, 1).unwrap();
    assert_eq!(execute_proposal(&mut p, &ExecuteProposal { executor: addr(7) }, 500), Err(ErrorCode::ProposalNotPassed));
    finalize_proposal(&gov, &mut p, &FinalizeProposal { total_supply: 1000 }, 101).unwrap();
    let ctx = ExecuteProposal { executor: addr(7) };
    assert_eq!(execute_proposal(&mut p, &ctx, 160), Err(ErrorCode::ExecutionDelayNotMet));
    assert_eq!(execute_proposal(&mut p, &ctx, 161), Ok(ProposalType::Treasury));
    assert_eq!(p.status, ProposalStatus::Executed);
    assert_eq!(execute_proposal(&mut p, &ctx, 162), Err(ErrorCode::ProposalNotPassed));
}

#[test]
fn vote_on_closed_proposal_fails() {
    let mut gov = governance(100, 0, 60);
    let mut p = open_proposal(&mut gov, 0, 100);
    let mut votes = Vec::new();
    finalize_proposal(&gov, &mut p, &FinalizeProposal { total_supply: 1000 }, 101).unwrap();
    assert_eq!(vote(&mut p, &mut votes, 20, 1000, 50, true, 1), Err(ErrorCode::ProposalNotActive));
}

#[test]
fn vote_tally_overflow_is_rejected() {
    let mut gov = governance(0, 10, 60);
    let mut p = open_proposal(&mut gov, 0, 100);
    let mut votes = Vec::new();
    vote(&mut p, &mut votes, 20, u64::MAX, 5, true, u64::MAX).unwrap();
    assert_eq!(vote(&mut p, &mut votes, 21, 10, 5, false, 1), Err(ErrorCode::ArithmeticOverflow));
    assert_eq!(p.votes_against, 0);
    assert_eq!(votes.len(), 1);
}

#[test]
fn finalize_execution_time_overflow_is_rejected() {
    let mut gov = governance(0, 0, i64::MAX);
    let mut p = open_proposal(&mut gov, 0, 10);
    let mut votes = Vec::new();
    vote(&mut p, &mut votes, 20, 10, 5, true, 1).unwrap();
    let ctx = FinalizeProposal { total_supply: 10 };
    assert_eq!(finalize_proposal(&gov, &mut p, &ctx, 11), Err(ErrorCode::ArithmeticOverflow));
    assert_eq!(p.status, ProposalStatus::Active);
}
