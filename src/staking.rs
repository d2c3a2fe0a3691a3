use vstd::prelude::*;
use vstd::arithmetic::div_mod::lemma_div_is_ordered;
use vstd::arithmetic::mul::lemma_mul_inequality;
use crate::address::Address;
use crate::bps::{bps_of, bps_share};
use crate::ledger::TokenCall;

verus! {

/// Seconds in one day of a staking term.
pub const SECONDS_PER_DAY: i64 = 86400;

/// Seconds in the 365-day year over which an APY accrues.
pub const SECONDS_PER_YEAR: u128 = 31536000;

/// The divisor of the reward formula: basis points times seconds per year.
pub const REWARD_DIVISOR: u128 = 10000 * SECONDS_PER_YEAR;

/// A staking pool: the vault that holds staked tokens and the pool's totals.
#[derive(Clone, Copy, Debug, PartialEq, Eq, Structural)]
pub struct StakingPool {
    pub authority: Address,
    pub token_mint: Address,
    pub vault: Address,
    /// Basis points withheld from the principal of an early unstake.
    pub early_unstake_penalty: u16,
    pub total_staked: u64,
    pub total_rewards_distributed: u64,
    pub is_initialized: bool,
}

impl StakingPool {
    /// The penalty rate is at most a whole.
    pub open spec fn wf(&self) -> bool {
        self.early_unstake_penalty <= 10000
    }
}

/// A staking tier of a pool: a term length and the APY it pays.
#[derive(Clone, Copy, Debug, PartialEq, Eq, Structural)]
pub struct StakingTier {
    pub pool: Address,
    pub duration_days: u32,
    pub apy_basis_points: u16,
    pub total_staked: u64,
    pub is_active: bool,
}

/// One user's stake in one pool.
#[derive(Clone, Copy, Debug, PartialEq, Eq, Structural)]
pub struct UserStake {
    pub user: Address,
    pub pool: Address,
    pub tier: Address,
    pub amount: u64,
    pub start_time: i64,
    pub end_time: i64,
    pub rewards_claimed: u64,
    pub is_active: bool,
}

/// The accounts that `initialize_staking` reads.
#[derive(Clone, Copy, Debug, PartialEq, Eq, Structural)]
pub struct InitializeStaking {
    pub authority: Address,
    pub token_mint: Address,
    pub vault: Address,
}

/// The accounts that `create_staking_tier` reads.
#[derive(Clone, Copy, Debug, PartialEq, Eq, Structural)]
pub struct CreateStakingTier {
    pub staking_pool: Address,
}

/// The accounts that `stake_tokens` reads.
#[derive(Clone, Copy, Debug, PartialEq, Eq, Structural)]
pub struct StakeTokens {
    pub staking_pool: Address,
    pub staking_tier: Address,
    pub vault: Address,
    pub user_token_account: Address,
    pub user: Address,
}

/// The accounts that `unstake_tokens` reads.
#[derive(Clone, Copy, Debug, PartialEq, Eq, Structural)]
pub struct UnstakeTokens {
    pub staking_pool: Address,
    pub staking_tier: Address,
    pub vault: Address,
    pub user_token_account: Address,
    pub user: Address,
}

/// The accounts that `claim_rewards` reads.
#[derive(Clone, Copy, Debug, PartialEq, Eq, Structural)]
pub struct ClaimRewards {
    pub staking_pool: Address,
    pub staking_tier: Address,
    pub vault: Address,
    pub user_token_account: Address,
    pub user: Address,
}

#[derive(Clone, Copy, Debug, PartialEq, Eq, Structural)]
pub enum ErrorCode {
    StakeNotActive,
    StakingPeriodNotComplete,
    NoRewardsAvailable,
    InvalidStakingTier,
    /// A stake already exists for this (user, pool) pair.
    AlreadyStaked,
    /// A result or a running total would not fit its integer type.
    ArithmeticOverflow,
}

/// Seconds of the stake's term that have passed at `now`: the time is
/// clamped to `end_time`, and no time has passed before `start_time`.
pub open spec fn elapsed_secs(stake: UserStake, now: int) -> int {
    let until = if now < stake.end_time { now } else { stake.end_time as int };
    if until <= stake.start_time { 0 } else { until - stake.start_time }
}

/// `floor(amount * apy_bps * elapsed / (10000 * 31536000))`.
pub open spec fn gross_reward(amount: int, apy_bps: int, elapsed: int) -> int {
    (amount * apy_bps * elapsed) / (REWARD_DIVISOR as int)
}

/// The reward that the stake has earned in all by `now`.
pub open spec fn accrued_reward(stake: UserStake, tier: StakingTier, now: int) -> int {
    gross_reward(stake.amount as int, tier.apy_basis_points as int, elapsed_secs(stake, now))
}

/// What is earned and not yet paid out; never below zero.
pub open spec fn claimable_reward(stake: UserStake, tier: StakingTier, now: int) -> int {
    let g = accrued_reward(stake, tier, now);
    if g > stake.rewards_claimed { g - stake.rewards_claimed } else { 0 }
}

/// The result of `calculate_rewards`.
pub open spec fn rewards_at(stake: UserStake, tier: StakingTier, now: int) -> Result<u64, ErrorCode> {
    if accrued_reward(stake, tier, now) > u64::MAX {
        Err(ErrorCode::ArithmeticOverflow)
    } else {
        Ok(claimable_reward(stake, tier, now) as u64)
    }
}

proof fn lemma_gross_reward_ordered(amount: int, apy_bps: int, e1: int, e2: int)
    requires
        0 <= amount,
        0 <= apy_bps,
        0 <= e1 <= e2,
    ensures
        0 <= gross_reward(amount, apy_bps, e1) <= gross_reward(amount, apy_bps, e2),
{
    assert(0 <= amount * apy_bps) by (nonlinear_arith)
        requires
            0 <= amount,
            0 <= apy_bps,
    ;
    lemma_mul_inequality(e1, e2, amount * apy_bps);
    assert(amount * apy_bps * e1 == e1 * (amount * apy_bps)) by (nonlinear_arith);
    assert(amount * apy_bps * e2 == e2 * (amount * apy_bps)) by (nonlinear_arith);
    assert(0 <= amount * apy_bps * e1) by (nonlinear_arith)
        requires
            0 <= amount * apy_bps,
            0 <= e1,
    ;
    lemma_div_is_ordered(amount * apy_bps * e1, amount * apy_bps * e2, REWARD_DIVISOR as int);
    lemma_div_is_ordered(0, amount * apy_bps * e1, REWARD_DIVISOR as int);
}

/// Rewards never shrink as time goes on, and nothing is claimable before
/// any time of the term has passed.
pub proof fn lemma_claimable_monotone(stake: UserStake, tier: StakingTier, t1: int, t2: int)
    requires
        t1 <= t2,
    ensures
        accrued_reward(stake, tier, t1) <= accrued_reward(stake, tier, t2),
        claimable_reward(stake, tier, t1) <= claimable_reward(stake, tier, t2),
        elapsed_secs(stake, t1) == 0 ==> claimable_reward(stake, tier, t1) == 0,
{
    lemma_gross_reward_ordered(
        stake.amount as int,
        tier.apy_basis_points as int,
        elapsed_secs(stake, t1),
        elapsed_secs(stake, t2),
    );
}

/// The reward that `stake` can claim at `now`: what it has earned over the
/// elapsed part of its term, less what it has already been paid.
///
/// The formula is evaluated exactly in 128 bits; a reward that does not fit
/// in 64 bits is an `ArithmeticOverflow`.
pub fn calculate_rewards(stake: &UserStake, tier: &StakingTier, now: i64) -> (r: Result<u64, ErrorCode>)
    ensures
        r == rewards_at(*stake, *tier, now as int),
{
    let until: i64 = if now < stake.end_time { now } else { stake.end_time };
    let elapsed: u128 = if until <= stake.start_time {
        0
    } else {
        (until as i128 - stake.start_time as i128) as u128
    };
    assert(elapsed == elapsed_secs(*stake, now as int));
    let amount = stake.amount as u128;
    let apy = tier.apy_basis_points as u128;
    assert(amount * apy <= u64::MAX as int * u16::MAX as int) by (nonlinear_arith)
        requires
            amount <= u64::MAX,
            apy <= u16::MAX,
    ;
    let base: u128 = amount * apy;
    if elapsed > 0 && base > u128::MAX / elapsed {
        proof {
            let e = elapsed as int;
            let b = base as int;
            let q = u128::MAX as int / e;
            assert(b * e > u128::MAX) by (nonlinear_arith)
                requires
                    e > 0,
                    b >= q + 1,
                    q == u128::MAX as int / e,
            ;
            assert(amount * apy * e == b * e);
            lemma_div_is_ordered(u128::MAX + 1, b * e, REWARD_DIVISOR as int);
        }
        return Err(ErrorCode::ArithmeticOverflow);
    }
    proof {
        let e = elapsed as int;
        assert(base * e <= u128::MAX) by (nonlinear_arith)
            requires
                e > 0 ==> base <= u128::MAX as int / e,
                e >= 0,
        ;
    }
    let gross: u128 = base * elapsed / REWARD_DIVISOR;
    if gross > u64::MAX as u128 {
        return Err(ErrorCode::ArithmeticOverflow);
    }
    let gross: u64 = gross as u64;
    if gross > stake.rewards_claimed {
        Ok(gross - stake.rewards_claimed)
    } else {
        Ok(0)
    }
}

/// Creates a pool with empty totals.
pub fn initialize_staking(ctx: &InitializeStaking, early_unstake_penalty: u16) -> (r: StakingPool)
    requires
        early_unstake_penalty <= 10000,
    ensures
        r.wf(),
        r == (StakingPool {
            authority: ctx.authority,
            token_mint: ctx.token_mint,
            vault: ctx.vault,
            early_unstake_penalty,
            total_staked: 0,
            total_rewards_distributed: 0,
            is_initialized: true,
        }),
{
    StakingPool {
        authority: ctx.authority,
        token_mint: ctx.token_mint,
        vault: ctx.vault,
        early_unstake_penalty,
        total_staked: 0,
        total_rewards_distributed: 0,
        is_initialized: true,
    }
}

/// Creates an active tier of the pool with nothing staked in it.
pub fn create_staking_tier(ctx: &CreateStakingTier, duration_days: u32, apy_basis_points: u16) -> (r:
    StakingTier)
    ensures
        r == (StakingTier {
            pool: ctx.staking_pool,
            duration_days,
            apy_basis_points,
            total_staked: 0,
            is_active: true,
        }),
{
    StakingTier { pool: ctx.staking_pool, duration_days, apy_basis_points, total_staked: 0, is_active: true }
}

/// A set of stakes that keeps a running total: those of a pool, or those
/// of a tier.
#[derive(Clone, Copy, Debug, PartialEq, Eq, Structural)]
pub enum StakeGroup {
    Pool(Address),
    Tier(Address),
}

/// Whether `stake` belongs to `group`.
pub open spec fn in_group(stake: UserStake, group: StakeGroup) -> bool {
    match group {
        StakeGroup::Pool(pool) => stake.pool == pool,
        StakeGroup::Tier(tier) => stake.tier == tier,
    }
}

/// What `stake` adds to the total of `group`: its amount while it is active.
pub open spec fn stake_share(stake: UserStake, group: StakeGroup) -> int {
    if stake.is_active && in_group(stake, group) {
        stake.amount as int
    } else {
        0
    }
}

/// The sum of the amounts of the active stakes of `stakes` in `group`.
pub open spec fn active_stake_total(stakes: Seq<UserStake>, group: StakeGroup) -> int
    decreases stakes.len(),
{
    if stakes.len() == 0 {
        0
    } else {
        active_stake_total(stakes.drop_last(), group) + stake_share(stakes.last(), group)
    }
}

proof fn lemma_active_total_update(stakes: Seq<UserStake>, i: int, stake: UserStake, group: StakeGroup)
    requires
        0 <= i < stakes.len(),
    ensures
        active_stake_total(stakes.update(i, stake), group) == active_stake_total(stakes, group) - stake_share(
            stakes[i],
            group,
        ) + stake_share(stake, group),
        active_stake_total(stakes, group) >= stake_share(stakes[i], group),
    decreases stakes.len(),
{
    let updated = stakes.update(i, stake);
    lemma_active_total_nonneg(stakes.drop_last(), group);
    if i == stakes.len() - 1 {
        assert(updated.drop_last() =~= stakes.drop_last());
    } else {
        assert(updated.drop_last() =~= stakes.drop_last().update(i, stake));
        lemma_active_total_update(stakes.drop_last(), i, stake, group);
    }
}

proof fn lemma_active_total_nonneg(stakes: Seq<UserStake>, group: StakeGroup)
    ensures
        active_stake_total(stakes, group) >= 0,
    decreases stakes.len(),
{
    if stakes.len() > 0 {
        lemma_active_total_nonneg(stakes.drop_last(), group);
    }
}

/// Where every stake of a tier is a stake of a pool, the tier's active
/// total is at most the pool's.
pub proof fn lemma_tier_total_within_pool(stakes: Seq<UserStake>, tier: Address, pool: Address)
    requires
        forall|i: int| 0 <= i < stakes.len() && (#[trigger] stakes[i]).tier == tier ==> stakes[i].pool == pool,
    ensures
        active_stake_total(stakes, StakeGroup::Tier(tier)) <= active_stake_total(stakes, StakeGroup::Pool(pool)),
    decreases stakes.len(),
{
    if stakes.len() > 0 {
        let rest = stakes.drop_last();
        assert forall|i: int| 0 <= i < rest.len() && (#[trigger] rest[i]).tier == tier implies rest[i].pool == pool by {
            assert(rest[i] == stakes[i]);
        }
        lemma_tier_total_within_pool(rest, tier, pool);
        lemma_active_total_nonneg(rest, StakeGroup::Pool(pool));
        assert(stakes.last() == stakes[stakes.len() - 1]);
    }
}

/// Whether `stakes` holds a stake of `user` in `pool`.
pub open spec fn stake_key_taken(stakes: Seq<UserStake>, user: Address, pool: Address) -> bool {
    exists|i: int| 0 <= i < stakes.len() && (#[trigger] stakes[i]).user == user && stakes[i].pool == pool
}

/// No two stakes of the store share a (user, pool) pair.
pub open spec fn stakes_unique(stakes: Seq<UserStake>) -> bool {
    forall|i: int, j: int|
        0 <= i < stakes.len() && 0 <= j < stakes.len() && i != j ==> !((#[trigger] stakes[i]).user
            == (#[trigger] stakes[j]).user && stakes[i].pool == stakes[j].pool)
}

/// Whether `stakes` holds a stake of `user` in `pool`.
pub fn has_stake(stakes: &Vec<UserStake>, user: Address, pool: Address) -> (r: bool)
    ensures
        r == stake_key_taken(stakes@, user, pool),
{
    let mut i: usize = 0;
    while i < stakes.len()
        invariant
            i <= stakes.len(),
            forall|k: int| 0 <= k < i ==> !((#[trigger] stakes@[k]).user == user && stakes@[k].pool == pool),
        decreases stakes.len() - i,
    {
        if stakes[i].user == user && stakes[i].pool == pool {
            return true;
        }
        i += 1;
    }
    false
}

/// The records and ledger calls of a successful stake, or its error.
pub open spec fn staked(
    pool: StakingPool,
    tier: StakingTier,
    stakes: Seq<UserStake>,
    ctx: StakeTokens,
    now: int,
    amount: u64,
) -> Result<(StakingPool, StakingTier, UserStake, Seq<TokenCall>), ErrorCode> {
    let end = now + tier.duration_days * SECONDS_PER_DAY;
    if tier.pool != ctx.staking_pool || !tier.is_active {
        Err(ErrorCode::InvalidStakingTier)
    } else if stake_key_taken(stakes, ctx.user, ctx.staking_pool) {
        Err(ErrorCode::AlreadyStaked)
    } else if end > i64::MAX || pool.total_staked + amount > u64::MAX || tier.total_staked + amount
        > u64::MAX {
        Err(ErrorCode::ArithmeticOverflow)
    } else {
        Ok(
            (
                StakingPool { total_staked: (pool.total_staked + amount) as u64, ..pool },
                StakingTier { total_staked: (tier.total_staked + amount) as u64, ..tier },
                UserStake {
                    user: ctx.user,
                    pool: ctx.staking_pool,
                    tier: ctx.staking_tier,
                    amount,
                    start_time: now as i64,
                    end_time: end as i64,
                    rewards_claimed: 0,
                    is_active: true,
                },
                seq![TokenCall::Transfer { from: ctx.user_token_account, to: ctx.vault, authority: ctx.user, amount }],
            ),
        )
    }
}

/// Stakes `amount` in `tier` for the term of the tier, starting at `now`.
///
/// The new stake is appended to `stakes`, the store of the pool's stakes,
/// and both totals grow by `amount`. The returned call moves `amount` from
/// the user's account into the vault. A user holds at most one stake per
/// pool. `tier_index` is the caller's own label of the tier; nothing reads
/// it.
pub fn stake_tokens(
    pool: &mut StakingPool,
    tier: &mut StakingTier,
    stakes: &mut Vec<UserStake>,
    ctx: &StakeTokens,
    now: i64,
    amount: u64,
    tier_index: u8,
) -> (r: Result<Vec<TokenCall>, ErrorCode>)
    ensures
        match staked(*old(pool), *old(tier), old(stakes)@, *ctx, now as int, amount) {
            Ok((p, t, s, calls)) => {
                &&& *final(pool) == p
                &&& *final(tier) == t
                &&& final(stakes)@ == old(stakes)@.push(s)
                &&& r matches Ok(c) && c@ == calls
            },
            Err(e) => {
                &&& r == Err::<Vec<TokenCall>, ErrorCode>(e)
                &&& *final(pool) == *old(pool)
                &&& *final(tier) == *old(tier)
                &&& final(stakes)@ == old(stakes)@
            },
        },
        stakes_unique(old(stakes)@) ==> stakes_unique(final(stakes)@),
        old(pool).total_staked == active_stake_total(old(stakes)@, StakeGroup::Pool(ctx.staking_pool)) ==> final(pool).total_staked == active_stake_total(final(stakes)@, StakeGroup::Pool(ctx.staking_pool)),
        old(tier).total_staked == active_stake_total(old(stakes)@, StakeGroup::Tier(ctx.staking_tier)) ==> final(tier).total_staked == active_stake_total(final(stakes)@, StakeGroup::Tier(ctx.staking_tier)),
{
    if tier.pool != ctx.staking_pool || !tier.is_active {
        return Err(ErrorCode::InvalidStakingTier);
    }
    if has_stake(stakes, ctx.user, ctx.staking_pool) {
        return Err(ErrorCode::AlreadyStaked);
    }
    let term: i64 = tier.duration_days as i64 * SECONDS_PER_DAY;
    if now > i64::MAX - term || pool.total_staked > u64::MAX - amount || tier.total_staked > u64::MAX
        - amount {
        return Err(ErrorCode::ArithmeticOverflow);
    }
    let stake = UserStake {
        user: ctx.user,
        pool: ctx.staking_pool,
        tier: ctx.staking_tier,
        amount,
        start_time: now,
        end_time: now + term,
        rewards_claimed: 0,
        is_active: true,
    };
    pool.total_staked = pool.total_staked + amount;
    tier.total_staked = tier.total_staked + amount;
    stakes.push(stake);
    proof {
        let s = old(stakes)@;
        let n = s.len() as int;
        assert(stakes@.drop_last() =~= s);
        assert forall|i: int, j: int|
            stakes_unique(s) && 0 <= i < stakes@.len() && 0 <= j < stakes@.len() && i != j implies !(
            (#[trigger] stakes@[i]).user == (#[trigger] stakes@[j]).user && stakes@[i].pool
                == stakes@[j].pool) by {
            if i == n {
                assert(stakes@[j] == s[j]);
            } else if j == n {
                assert(stakes@[i] == s[i]);
            } else {
                assert(stakes@[i] == s[i]);
                assert(stakes@[j] == s[j]);
            }
        }
    }
    Ok(vec![TokenCall::Transfer { from: ctx.user_token_account, to: ctx.vault, authority: ctx.user, amount }])
}

/// The principal that an unstake returns: all of `amount` once the term is
/// over, and `amount` less `floor(amount * penalty_bps / 10000)` before.
pub open spec fn unstake_principal(amount: u64, penalty_bps: u16, early: bool) -> int {
    if early {
        amount - bps_share(amount as int, penalty_bps as int)
    } else {
        amount as int
    }
}

/// The records and ledger calls of a successful unstake, or its error.
pub open spec fn unstaked(
    pool: StakingPool,
    tier: StakingTier,
    stake: UserStake,
    ctx: UnstakeTokens,
    now: int,
    early_unstake: bool,
) -> Result<(StakingPool, StakingTier, UserStake, Seq<TokenCall>), ErrorCode> {
    let early = now < stake.end_time;
    let rewards = claimable_reward(stake, tier, now);
    let payout = unstake_principal(stake.amount, pool.early_unstake_penalty, early) + rewards;
    if !stake.is_active {
        Err(ErrorCode::StakeNotActive)
    } else if stake.tier != ctx.staking_tier {
        Err(ErrorCode::InvalidStakingTier)
    } else if early && !early_unstake {
        Err(ErrorCode::StakingPeriodNotComplete)
    } else if accrued_reward(stake, tier, now) > u64::MAX || payout > u64::MAX || pool.total_staked
        < stake.amount || tier.total_staked < stake.amount || pool.total_rewards_distributed + rewards
        > u64::MAX {
        Err(ErrorCode::ArithmeticOverflow)
    } else {
        Ok(
            (
                StakingPool {
                    total_staked: (pool.total_staked - stake.amount) as u64,
                    total_rewards_distributed: (pool.total_rewards_distributed + rewards) as u64,
                    ..pool
                },
                StakingTier { total_staked: (tier.total_staked - stake.amount) as u64, ..tier },
                UserStake {
                    is_active: false,
                    rewards_claimed: (stake.rewards_claimed + rewards) as u64,
                    ..stake
                },
                seq![
                    TokenCall::Transfer {
                        from: ctx.vault,
                        to: ctx.user_token_account,
                        authority: ctx.vault,
                        amount: payout as u64,
                    },
                ],
            ),
        )
    }
}

/// Ends an active stake at `now` and pays it out from the vault.
///
/// Before `end_time` the caller must ask for an early unstake, which
/// withholds the pool's penalty from the principal. The claimable reward is
/// paid on top of the principal. The stake becomes inactive for good, and
/// the pool and tier totals fall by the whole staked amount.
pub fn unstake_tokens(
    pool: &mut StakingPool,
    tier: &mut StakingTier,
    stake: &mut UserStake,
    ctx: &UnstakeTokens,
    now: i64,
    early_unstake: bool,
) -> (r: Result<Vec<TokenCall>, ErrorCode>)
    requires
        old(pool).wf(),
    ensures
        final(pool).wf(),
        match unstaked(*old(pool), *old(tier), *old(stake), *ctx, now as int, early_unstake) {
            Ok((p, t, s, calls)) => {
                &&& *final(pool) == p
                &&& *final(tier) == t
                &&& *final(stake) == s
                &&& r matches Ok(c) && c@ == calls
            },
            Err(e) => {
                &&& r == Err::<Vec<TokenCall>, ErrorCode>(e)
                &&& *final(pool) == *old(pool)
                &&& *final(tier) == *old(tier)
                &&& *final(stake) == *old(stake)
            },
        },
{
    if !stake.is_active {
        return Err(ErrorCode::StakeNotActive);
    }
    if stake.tier != ctx.staking_tier {
        return Err(ErrorCode::InvalidStakingTier);
    }
    let early = now < stake.end_time;
    if early && !early_unstake {
        return Err(ErrorCode::StakingPeriodNotComplete);
    }
    let rewards = match calculate_rewards(stake, tier, now) {
        Ok(v) => v,
        Err(e) => {
            return Err(e);
        },
    };
    let principal: u64 = if early {
        stake.amount - bps_of(stake.amount, pool.early_unstake_penalty)
    } else {
        stake.amount
    };
    if principal > u64::MAX - rewards || pool.total_staked < stake.amount || tier.total_staked
        < stake.amount || pool.total_rewards_distributed > u64::MAX - rewards {
        return Err(ErrorCode::ArithmeticOverflow);
    }
    let payout = principal + rewards;
    pool.total_staked = pool.total_staked - stake.amount;
    pool.total_rewards_distributed = pool.total_rewards_distributed + rewards;
    tier.total_staked = tier.total_staked - stake.amount;
    stake.is_active = false;
    stake.rewards_claimed = stake.rewards_claimed + rewards;
    Ok(vec![TokenCall::Transfer { from: ctx.vault, to: ctx.user_token_account, authority: ctx.vault, amount: payout }])
}

/// The records and ledger calls of a successful claim, or its error.
pub open spec fn claimed(
    pool: StakingPool,
    tier: StakingTier,
    stake: UserStake,
    ctx: ClaimRewards,
    now: int,
) -> Result<(StakingPool, UserStake, Seq<TokenCall>), ErrorCode> {
    let rewards = claimable_reward(stake, tier, now);
    if !stake.is_active {
        Err(ErrorCode::StakeNotActive)
    } else if stake.tier != ctx.staking_tier {
        Err(ErrorCode::InvalidStakingTier)
    } else if accrued_reward(stake, tier, now) > u64::MAX {
        Err(ErrorCode::ArithmeticOverflow)
    } else if rewards == 0 {
        Err(ErrorCode::NoRewardsAvailable)
    } else if pool.total_rewards_distributed + rewards > u64::MAX {
        Err(ErrorCode::ArithmeticOverflow)
    } else {
        Ok(
            (
                StakingPool {
                    total_rewards_distributed: (pool.total_rewards_distributed + rewards) as u64,
                    ..pool
                },
                UserStake { rewards_claimed: (stake.rewards_claimed + rewards) as u64, ..stake },
                seq![
                    TokenCall::Transfer {
                        from: ctx.vault,
                        to: ctx.user_token_account,
                        authority: ctx.vault,
                        amount: rewards as u64,
                    },
                ],
            ),
        )
    }
}

/// Pays the claimable reward of an active stake from the vault at `now`.
/// The stake stays active; what it has been paid grows by the reward.
pub fn claim_rewards(
    pool: &mut StakingPool,
    tier: &StakingTier,
    stake: &mut UserStake,
    ctx: &ClaimRewards,
    now: i64,
) -> (r: Result<Vec<TokenCall>, ErrorCode>)
    ensures
        match claimed(*old(pool), *tier, *old(stake), *ctx, now as int) {
            Ok((p, s, calls)) => {
                &&& *final(pool) == p
                &&& *final(stake) == s
                &&& r matches Ok(c) && c@ == calls
            },
            Err(e) => {
                &&& r == Err::<Vec<TokenCall>, ErrorCode>(e)
                &&& *final(pool) == *old(pool)
                &&& *final(stake) == *old(stake)
            },
        },
{
    if !stake.is_active {
        return Err(ErrorCode::StakeNotActive);
    }
    if stake.tier != ctx.staking_tier {
        return Err(ErrorCode::InvalidStakingTier);
    }
    let rewards = match calculate_rewards(stake, tier, now) {
        Ok(v) => v,
        Err(e) => {
            return Err(e);
        },
    };
    if rewards == 0 {
        return Err(ErrorCode::NoRewardsAvailable);
    }
    if pool.total_rewards_distributed > u64::MAX - rewards {
        return Err(ErrorCode::ArithmeticOverflow);
    }
    pool.total_rewards_distributed = pool.total_rewards_distributed + rewards;
    stake.rewards_claimed = stake.rewards_claimed + rewards;
    Ok(vec![TokenCall::Transfer { from: ctx.vault, to: ctx.user_token_account, authority: ctx.vault, amount: rewards }])
}

/// A pool's and a tier's totals stay the sums of their active stakes: if
/// they are before an unstake of the stake at `i` of the pool's store, they
/// are after, with the stake replaced by its unstaked record. Where they
/// hold, the totals cover every active stake.
pub proof fn lemma_unstake_keeps_totals(
    pool: StakingPool,
    tier: StakingTier,
    stakes: Seq<UserStake>,
    i: int,
    ctx: UnstakeTokens,
    now: int,
    early_unstake: bool,
)
    requires
        0 <= i < stakes.len(),
        stakes[i].pool == ctx.staking_pool,
        pool.total_staked == active_stake_total(stakes, StakeGroup::Pool(ctx.staking_pool)),
        tier.total_staked == active_stake_total(stakes, StakeGroup::Tier(ctx.staking_tier)),
    ensures
        stakes[i].is_active ==> pool.total_staked >= stakes[i].amount,
        stakes[i].is_active && stakes[i].tier == ctx.staking_tier ==> tier.total_staked >= stakes[i].amount,
        unstaked(pool, tier, stakes[i], ctx, now, early_unstake) matches Ok((p, t, s, calls)) ==> {
            &&& p.total_staked == active_stake_total(stakes.update(i, s), StakeGroup::Pool(ctx.staking_pool))
            &&& t.total_staked == active_stake_total(stakes.update(i, s), StakeGroup::Tier(ctx.staking_tier))
        },
{
    let s = match unstaked(pool, tier, stakes[i], ctx, now, early_unstake) {
        Ok((p, t, s, calls)) => s,
        Err(_) => stakes[i],
    };
    lemma_active_total_update(stakes, i, s, StakeGroup::Pool(ctx.staking_pool));
    lemma_active_total_update(stakes, i, s, StakeGroup::Tier(ctx.staking_tier));
}

/// A claim leaves the pool's total, and the sums of active stakes of the
/// pool and of every tier, as they were.
pub proof fn lemma_claim_keeps_totals(
    pool: StakingPool,
    tier: StakingTier,
    stakes: Seq<UserStake>,
    i: int,
    ctx: ClaimRewards,
    now: int,
    group: StakeGroup,
)
    requires
        0 <= i < stakes.len(),
    ensures
        claimed(pool, tier, stakes[i], ctx, now) matches Ok((p, s, calls)) ==> {
            &&& p.total_staked == pool.total_staked
            &&& active_stake_total(stakes.update(i, s), group) == active_stake_total(stakes, group)
        },
{
    match claimed(pool, tier, stakes[i], ctx, now) {
        Ok((p, s, calls)) => {
            lemma_active_total_update(stakes, i, s, group);
        },
        Err(_) => {},
    }
}

} // verus!
