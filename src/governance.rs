use vstd::prelude::*;
use crate::address::Address;

verus! {

/// The settings of a governance process and the number of proposals made.
#[derive(Clone, Copy, Debug, PartialEq, Eq, Structural)]
pub struct Governance {
    pub authority: Address,
    pub token_mint: Address,
    pub min_tokens_for_proposal: u64,
    /// The share of the token supply, in percent, that must vote.
    pub quorum_percentage: u8,
    pub execution_delay: i64,
    pub proposal_count: u64,
    pub is_initialized: bool,
}

impl Governance {
    /// The quorum is a percentage in [0, 100].
    pub open spec fn wf(&self) -> bool {
        self.quorum_percentage <= 100
    }
}

/// A proposal and its tally.
#[derive(Clone, Debug)]
pub struct Proposal {
    pub governance: Address,
    pub proposer: Address,
    pub title: String,
    pub description: String,
    pub proposal_type: ProposalType,
    pub votes_for: u64,
    pub votes_against: u64,
    pub total_votes: u64,
    pub start_time: i64,
    pub end_time: i64,
    pub execution_time: i64,
    pub status: ProposalStatus,
    pub quorum_reached: bool,
}

impl Proposal {
    /// Every vote counts either for or against.
    pub open spec fn wf(&self) -> bool {
        self.total_votes == self.votes_for + self.votes_against
    }
}

/// The vote of one voter on one proposal.
#[derive(Clone, Copy, Debug, PartialEq, Eq, Structural)]
pub struct VoteRecord {
    pub voter: Address,
    pub proposal: Address,
    pub support: bool,
    pub voting_power: u64,
    pub has_voted: bool,
}

#[derive(Clone, Copy, Debug, PartialEq, Eq, Structural)]
pub enum ProposalType {
    Treasury,
    Technical,
    Community,
}

/// The stage of a proposal: `Active`, then `Passed` or `Rejected`, and
/// `Executed` after `Passed`.
#[derive(Clone, Copy, Debug, PartialEq, Eq, Structural)]
pub enum ProposalStatus {
    Active,
    Passed,
    Rejected,
    Executed,
}

/// The accounts that `initialize_governance` reads.
#[derive(Clone, Copy, Debug, PartialEq, Eq, Structural)]
pub struct InitializeGovernance {
    pub token_mint: Address,
    pub authority: Address,
}

/// The accounts that `create_proposal` reads: the governance record's key,
/// the proposer, and the proposer's token balance.
#[derive(Clone, Copy, Debug, PartialEq, Eq, Structural)]
pub struct CreateProposal {
    pub governance: Address,
    pub proposer: Address,
    pub proposer_balance: u64,
}

/// The accounts that `vote_on_proposal` reads: the proposal's key, the
/// voter, and the voter's token balance.
#[derive(Clone, Copy, Debug, PartialEq, Eq, Structural)]
pub struct VoteOnProposal {
    pub proposal: Address,
    pub voter: Address,
    pub voter_balance: u64,
}

/// What `finalize_proposal` reads besides the records: the live total
/// supply of the governed token.
#[derive(Clone, Copy, Debug, PartialEq, Eq, Structural)]
pub struct FinalizeProposal {
    pub total_supply: u64,
}

/// The accounts that `execute_proposal` reads.
#[derive(Clone, Copy, Debug, PartialEq, Eq, Structural)]
pub struct ExecuteProposal {
    pub executor: Address,
}

#[derive(Clone, Copy, Debug, PartialEq, Eq, Structural)]
pub enum ErrorCode {
    InsufficientTokensForProposal,
    ProposalNotActive,
    VotingPeriodEnded,
    InsufficientVotingPower,
    AlreadyVoted,
    VotingPeriodNotEnded,
    ProposalNotPassed,
    ExecutionDelayNotMet,
    /// A result or a running total would not fit its integer type.
    ArithmeticOverflow,
}

/// Creates a governance process with no proposals.
pub fn initialize_governance(
    ctx: &InitializeGovernance,
    min_tokens_for_proposal: u64,
    quorum_percentage: u8,
    execution_delay: i64,
) -> (r: Governance)
    requires
        quorum_percentage <= 100,
    ensures
        r.wf(),
        r == (Governance {
            authority: ctx.authority,
            token_mint: ctx.token_mint,
            min_tokens_for_proposal,
            quorum_percentage,
            execution_delay,
            proposal_count: 0,
            is_initialized: true,
        }),
{
    Governance {
        authority: ctx.authority,
        token_mint: ctx.token_mint,
        min_tokens_for_proposal,
        quorum_percentage,
        execution_delay,
        proposal_count: 0,
        is_initialized: true,
    }
}

/// The error of `create_proposal`, if it fails.
pub open spec fn create_proposal_error(gov: Governance, ctx: CreateProposal, now: int, voting_period: int) -> Option<
    ErrorCode,
> {
    if ctx.proposer_balance < gov.min_tokens_for_proposal {
        Some(ErrorCode::InsufficientTokensForProposal)
    } else if now + voting_period > i64::MAX || now + voting_period < i64::MIN || gov.proposal_count
        + 1 > u64::MAX {
        Some(ErrorCode::ArithmeticOverflow)
    } else {
        None
    }
}

/// Opens a proposal for voting from `now` for `voting_period` seconds.
///
/// The proposer must hold at least the governance's minimum of tokens. The
/// proposal starts `Active` with an empty tally, and the governance counts
/// one proposal more.
pub fn create_proposal(
    governance: &mut Governance,
    ctx: &CreateProposal,
    now: i64,
    title: String,
    description: String,
    proposal_type: ProposalType,
    voting_period: i64,
) -> (r: Result<Proposal, ErrorCode>)
    ensures
        match create_proposal_error(*old(governance), *ctx, now as int, voting_period as int) {
            Some(e) => r matches Err(x) && x == e && *final(governance) == *old(governance),
            None => {
                &&& *final(governance) == (Governance {
                    proposal_count: (old(governance).proposal_count + 1) as u64,
                    ..*old(governance)
                })
                &&& r matches Ok(p) && {
                    &&& p.wf()
                    &&& p.governance == ctx.governance
                    &&& p.proposer == ctx.proposer
                    &&& p.title@ == title@
                    &&& p.description@ == description@
                    &&& p.proposal_type == proposal_type
                    &&& p.votes_for == 0 && p.votes_against == 0 && p.total_votes == 0
                    &&& p.start_time == now
                    &&& p.end_time == now + voting_period
                    &&& p.execution_time == 0
                    &&& p.status == ProposalStatus::Active
                    &&& !p.quorum_reached
                }
            },
        },
{
    if ctx.proposer_balance < governance.min_tokens_for_proposal {
        return Err(ErrorCode::InsufficientTokensForProposal);
    }
    if (voting_period > 0 && now > i64::MAX - voting_period) || (voting_period < 0 && now < i64::MIN
        - voting_period) || governance.proposal_count == u64::MAX {
        return Err(ErrorCode::ArithmeticOverflow);
    }
    governance.proposal_count = governance.proposal_count + 1;
    Ok(
        Proposal {
            governance: ctx.governance,
            proposer: ctx.proposer,
            title,
            description,
            proposal_type,
            votes_for: 0,
            votes_against: 0,
            total_votes: 0,
            start_time: now,
            end_time: now + voting_period,
            execution_time: 0,
            status: ProposalStatus::Active,
            quorum_reached: false,
        },
    )
}

/// Whether `votes` holds a vote of `voter` on `proposal`.
pub open spec fn vote_key_taken(votes: Seq<VoteRecord>, proposal: Address, voter: Address) -> bool {
    exists|i: int| 0 <= i < votes.len() && (#[trigger] votes[i]).proposal == proposal && votes[i].voter == voter
}

/// No two votes of the store share a (proposal, voter) pair.
pub open spec fn votes_unique(votes: Seq<VoteRecord>) -> bool {
    forall|i: int, j: int|
        0 <= i < votes.len() && 0 <= j < votes.len() && i != j ==> !((#[trigger] votes[i]).proposal
            == (#[trigger] votes[j]).proposal && votes[i].voter == votes[j].voter)
}

/// Whether `votes` holds a vote of `voter` on `proposal`.
pub fn has_voted(votes: &Vec<VoteRecord>, proposal: Address, voter: Address) -> (r: bool)
    ensures
        r == vote_key_taken(votes@, proposal, voter),
{
    let mut i: usize = 0;
    while i < votes.len()
        invariant
            i <= votes.len(),
            forall|k: int|
                0 <= k < i ==> !((#[trigger] votes@[k]).proposal == proposal && votes@[k].voter == voter),
        decreases votes.len() - i,
    {
        if votes[i].proposal == proposal && votes[i].voter == voter {
            return true;
        }
        i += 1;
    }
    false
}

/// The error of `vote_on_proposal`, if it fails.
pub open spec fn vote_error(
    proposal: Proposal,
    votes: Seq<VoteRecord>,
    ctx: VoteOnProposal,
    now: int,
    voting_power: u64,
) -> Option<ErrorCode> {
    if proposal.status != ProposalStatus::Active {
        Some(ErrorCode::ProposalNotActive)
    } else if now < proposal.start_time || now > proposal.end_time {
        Some(ErrorCode::VotingPeriodEnded)
    } else if voting_power > ctx.voter_balance {
        Some(ErrorCode::InsufficientVotingPower)
    } else if vote_key_taken(votes, ctx.proposal, ctx.voter) {
        Some(ErrorCode::AlreadyVoted)
    } else if proposal.total_votes + voting_power > u64::MAX {
        Some(ErrorCode::ArithmeticOverflow)
    } else {
        None
    }
}

/// Casts the vote of `ctx.voter` with `voting_power` on an active proposal,
/// within its voting window.
///
/// The voting power may not exceed the voter's balance, and each voter
/// votes once on a proposal: the new record is appended to `votes`, the
/// store of vote records, and the power is added to one side of the tally
/// and to the total.
pub fn vote_on_proposal(
    proposal: &mut Proposal,
    votes: &mut Vec<VoteRecord>,
    ctx: &VoteOnProposal,
    now: i64,
    support: bool,
    voting_power: u64,
) -> (r: Result<(), ErrorCode>)
    requires
        old(proposal).wf(),
    ensures
        final(proposal).wf(),
        votes_unique(old(votes)@) ==> votes_unique(final(votes)@),
        match vote_error(*old(proposal), old(votes)@, *ctx, now as int, voting_power) {
            Some(e) => {
                &&& r == Err::<(), ErrorCode>(e)
                &&& *final(proposal) == *old(proposal)
                &&& final(votes)@ == old(votes)@
            },
            None => {
                &&& r == Ok::<(), ErrorCode>(())
                &&& final(votes)@ == old(votes)@.push(
                    VoteRecord { voter: ctx.voter, proposal: ctx.proposal, support, voting_power, has_voted: true },
                )
                &&& *final(proposal) == (Proposal {
                    votes_for: if support { (old(proposal).votes_for + voting_power) as u64 } else { old(proposal).votes_for },
                    votes_against: if support { old(proposal).votes_against } else { (old(proposal).votes_against + voting_power) as u64 },
                    total_votes: (old(proposal).total_votes + voting_power) as u64,
                    ..*old(proposal)
                })
            },
        },
{
    if proposal.status != ProposalStatus::Active {
        return Err(ErrorCode::ProposalNotActive);
    }
    if now < proposal.start_time || now > proposal.end_time {
        return Err(ErrorCode::VotingPeriodEnded);
    }
    if voting_power > ctx.voter_balance {
        return Err(ErrorCode::InsufficientVotingPower);
    }
    if has_voted(votes, ctx.proposal, ctx.voter) {
        return Err(ErrorCode::AlreadyVoted);
    }
    if proposal.total_votes > u64::MAX - voting_power {
        return Err(ErrorCode::ArithmeticOverflow);
    }
    votes.push(VoteRecord { voter: ctx.voter, proposal: ctx.proposal, support, voting_power, has_voted: true });
    if support {
        proposal.votes_for = proposal.votes_for + voting_power;
    } else {
        proposal.votes_against = proposal.votes_against + voting_power;
    }
    proposal.total_votes = proposal.total_votes + voting_power;
    proof {
        let s = old(votes)@;
        let n = s.len() as int;
        assert forall|i: int, j: int|
            votes_unique(s) && 0 <= i < votes@.len() && 0 <= j < votes@.len() && i != j implies !(
            (#[trigger] votes@[i]).proposal == (#[trigger] votes@[j]).proposal && votes@[i].voter
                == votes@[j].voter) by {
            if i == n {
                assert(votes@[j] == s[j]);
            } else if j == n {
                assert(votes@[i] == s[i]);
            } else {
                assert(votes@[i] == s[i]);
                assert(votes@[j] == s[j]);
            }
        }
    }
    Ok(())
}

/// `floor(total_supply * quorum_percentage / 100)`: the votes a proposal
/// needs for its outcome to count.
pub open spec fn required_quorum(total_supply: u64, quorum_percentage: u8) -> int {
    (total_supply * quorum_percentage) / 100
}

/// The proposal after a successful finalize, or the error.
pub open spec fn finalized(gov: Governance, proposal: Proposal, ctx: FinalizeProposal, now: int) -> Result<
    Proposal,
    ErrorCode,
> {
    let quorum = proposal.total_votes >= required_quorum(ctx.total_supply, gov.quorum_percentage);
    let execution_time = now + gov.execution_delay;
    if proposal.status != ProposalStatus::Active {
        Err(ErrorCode::ProposalNotActive)
    } else if now <= proposal.end_time {
        Err(ErrorCode::VotingPeriodNotEnded)
    } else if quorum && proposal.votes_for > proposal.votes_against {
        if execution_time > i64::MAX || execution_time < i64::MIN {
            Err(ErrorCode::ArithmeticOverflow)
        } else {
            Ok(
                Proposal {
                    quorum_reached: quorum,
                    status: ProposalStatus::Passed,
                    execution_time: execution_time as i64,
                    ..proposal
                },
            )
        }
    } else {
        Ok(Proposal { quorum_reached: quorum, status: ProposalStatus::Rejected, ..proposal })
    }
}

/// Closes the vote on an active proposal once `now` is past its end.
///
/// The quorum is reached when the total of votes is at least the quorum
/// percentage of `ctx.total_supply`. A proposal that reaches the quorum
/// with more votes for than against passes and may be executed after the
/// governance's delay; any other is rejected.
pub fn finalize_proposal(
    governance: &Governance,
    proposal: &mut Proposal,
    ctx: &FinalizeProposal,
    now: i64,
) -> (r: Result<(), ErrorCode>)
    ensures
        match finalized(*governance, *old(proposal), *ctx, now as int) {
            Ok(p) => r == Ok::<(), ErrorCode>(()) && *final(proposal) == p,
            Err(e) => r == Err::<(), ErrorCode>(e) && *final(proposal) == *old(proposal),
        },
        r is Ok ==> final(proposal).status != ProposalStatus::Active && final(proposal).quorum_reached
            == (final(proposal).total_votes >= required_quorum(ctx.total_supply, governance.quorum_percentage)),
{
    if proposal.status != ProposalStatus::Active {
        return Err(ErrorCode::ProposalNotActive);
    }
    if now <= proposal.end_time {
        return Err(ErrorCode::VotingPeriodNotEnded);
    }
    assert(ctx.total_supply as int * governance.quorum_percentage as int <= u64::MAX as int * 255)
        by (nonlinear_arith)
        requires
            ctx.total_supply <= u64::MAX,
            governance.quorum_percentage <= 255,
    ;
    let required: u128 = (ctx.total_supply as u128) * (governance.quorum_percentage as u128) / 100;
    let quorum = proposal.total_votes as u128 >= required;
    if quorum && proposal.votes_for > proposal.votes_against {
        let delay = governance.execution_delay;
        if (delay > 0 && now > i64::MAX - delay) || (delay < 0 && now < i64::MIN - delay) {
            return Err(ErrorCode::ArithmeticOverflow);
        }
        proposal.quorum_reached = quorum;
        proposal.status = ProposalStatus::Passed;
        proposal.execution_time = now + delay;
    } else {
        proposal.quorum_reached = quorum;
        proposal.status = ProposalStatus::Rejected;
    }
    Ok(())
}

/// A proposal is finalized at most once: once a finalize has succeeded, any
/// later finalize fails with `ProposalNotActive`, whatever its time or
/// supply. The quorum is recorded as reached exactly when the total of
/// votes is at least the required quorum.
pub proof fn lemma_finalize_once(
    gov: Governance,
    proposal: Proposal,
    ctx: FinalizeProposal,
    now: int,
    later_ctx: FinalizeProposal,
    later: int,
)
    ensures
        finalized(gov, proposal, ctx, now) matches Ok(p) ==> {
            &&& p.quorum_reached == (p.total_votes >= required_quorum(ctx.total_supply, gov.quorum_percentage))
            &&& finalized(gov, p, later_ctx, later) == Err::<Proposal, ErrorCode>(ErrorCode::ProposalNotActive)
        },
{
}

/// Executes a passed proposal once its execution time has come, and marks
/// it `Executed`. The proposal's type is returned: the side effect of each
/// type is the host's to perform.
pub fn execute_proposal(proposal: &mut Proposal, ctx: &ExecuteProposal, now: i64) -> (r: Result<
    ProposalType,
    ErrorCode,
>)
    ensures
        old(proposal).status != ProposalStatus::Passed ==> r == Err::<ProposalType, ErrorCode>(
            ErrorCode::ProposalNotPassed,
        ) && *final(proposal) == *old(proposal),
        old(proposal).status == ProposalStatus::Passed && now < old(proposal).execution_time ==> r
            == Err::<ProposalType, ErrorCode>(ErrorCode::ExecutionDelayNotMet) && *final(proposal)
            == *old(proposal),
        old(proposal).status == ProposalStatus::Passed && now >= old(proposal).execution_time ==> r
            == Ok::<ProposalType, ErrorCode>(old(proposal).proposal_type) && *final(proposal) == (Proposal {
            status: ProposalStatus::Executed,
            ..*old(proposal)
        }),
{
    if proposal.status != ProposalStatus::Passed {
        return Err(ErrorCode::ProposalNotPassed);
    }
    if now < proposal.execution_time {
        return Err(ErrorCode::ExecutionDelayNotMet);
    }
    proposal.status = ProposalStatus::Executed;
    Ok(proposal.proposal_type)
}

} // verus!
