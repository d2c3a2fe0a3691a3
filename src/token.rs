use vstd::prelude::*;
use crate::address::Address;
use crate::bps::{bps_share, split_bps};
use crate::ledger::{total_moved, TokenCall};

verus! {

/// The fee, in basis points, that every new token charges on transfers.
pub const TRANSFER_FEE_BPS: u16 = 10;

/// A token: its description, its supply cap and what circulates of it.
#[derive(Clone, Debug)]
pub struct TokenInfo {
    pub name: String,
    pub symbol: String,
    pub decimals: u8,
    pub total_supply: u64,
    pub circulating_supply: u64,
    pub mint: Address,
    pub authority: Address,
    pub treasury: Address,
    pub transfer_fee_basis_points: u16,
    pub is_initialized: bool,
}

impl TokenInfo {
    /// What circulates never exceeds the cap, and the fee is at most a
    /// whole.
    pub open spec fn wf(&self) -> bool {
        &&& self.circulating_supply <= self.total_supply
        &&& self.transfer_fee_basis_points <= 10000
    }
}

impl Default for TokenInfo {
    /// A record that no token has been initialized in yet.
    fn default() -> (r: TokenInfo)
        ensures
            r.wf(),
            !r.is_initialized,
            r.total_supply == 0,
            r.circulating_supply == 0,
    {
        let zero = Address { hi: 0, lo: 0 };
        TokenInfo {
            name: String::new(),
            symbol: String::new(),
            decimals: 0,
            total_supply: 0,
            circulating_supply: 0,
            mint: zero,
            authority: zero,
            treasury: zero,
            transfer_fee_basis_points: 0,
            is_initialized: false,
        }
    }
}

/// The accounts that `initialize_token` reads.
#[derive(Clone, Copy, Debug, PartialEq, Eq, Structural)]
pub struct InitializeToken {
    pub mint: Address,
    pub treasury: Address,
    pub authority: Address,
}

/// The accounts that `mint_tokens` reads: where the new tokens go, and who
/// signs.
#[derive(Clone, Copy, Debug, PartialEq, Eq, Structural)]
pub struct MintTokens {
    pub to: Address,
    pub authority: Address,
}

/// The accounts that `transfer_with_fee` reads, and the sender's balance.
/// The fee goes to the token's own treasury.
#[derive(Clone, Copy, Debug, PartialEq, Eq, Structural)]
pub struct TransferWithFee {
    pub from: Address,
    pub to: Address,
    pub authority: Address,
    pub from_balance: u64,
}

/// The accounts that `burn_tokens` reads.
#[derive(Clone, Copy, Debug, PartialEq, Eq, Structural)]
pub struct BurnTokens {
    pub from: Address,
    pub authority: Address,
}

#[derive(Clone, Copy, Debug, PartialEq, Eq, Structural)]
pub enum ErrorCode {
    ExceedsMaxSupply,
    NotInitialized,
    Unauthorized,
    /// More would be burned than circulates.
    CirculationUnderflow,
    /// The record already holds a token.
    AlreadyInitialized,
    /// The sender holds less than the amount.
    InsufficientFunds,
}

/// Sets up a token in an empty record: nothing circulates yet, and
/// transfers pay the fixed fee.
pub fn initialize_token(
    token_info: &mut TokenInfo,
    ctx: &InitializeToken,
    name: String,
    symbol: String,
    decimals: u8,
    total_supply: u64,
) -> (r: Result<(), ErrorCode>)
    ensures
        old(token_info).is_initialized ==> r == Err::<(), ErrorCode>(ErrorCode::AlreadyInitialized)
            && *final(token_info) == *old(token_info),
        !old(token_info).is_initialized ==> {
            &&& r == Ok::<(), ErrorCode>(())
            &&& final(token_info).wf()
            &&& final(token_info).name@ == name@
            &&& final(token_info).symbol@ == symbol@
            &&& final(token_info).decimals == decimals
            &&& final(token_info).total_supply == total_supply
            &&& final(token_info).circulating_supply == 0
            &&& final(token_info).mint == ctx.mint
            &&& final(token_info).authority == ctx.authority
            &&& final(token_info).treasury == ctx.treasury
            &&& final(token_info).transfer_fee_basis_points == TRANSFER_FEE_BPS
            &&& final(token_info).is_initialized
        },
{
    if token_info.is_initialized {
        return Err(ErrorCode::AlreadyInitialized);
    }
    token_info.name = name;
    token_info.symbol = symbol;
    token_info.decimals = decimals;
    token_info.total_supply = total_supply;
    token_info.circulating_supply = 0;
    token_info.mint = ctx.mint;
    token_info.authority = ctx.authority;
    token_info.treasury = ctx.treasury;
    token_info.transfer_fee_basis_points = TRANSFER_FEE_BPS;
    token_info.is_initialized = true;
    Ok(())
}

/// A change of the circulating supply.
#[derive(Clone, Copy, Debug, PartialEq, Eq, Structural)]
pub enum SupplyOp {
    Mint(u64),
    Burn(u64),
}

/// The circulating supply after `op`, under the cap `total`: an operation
/// that would pass the cap or go below zero fails and changes nothing.
pub open spec fn supply_after(circulating: int, total: int, op: SupplyOp) -> int {
    match op {
        SupplyOp::Mint(a) => if circulating + a > total { circulating } else { circulating + a },
        SupplyOp::Burn(a) => if a > circulating { circulating } else { circulating - a },
    }
}

/// The circulating supply after each of `ops` in turn.
pub open spec fn supply_after_all(circulating: int, total: int, ops: Seq<SupplyOp>) -> int
    decreases ops.len(),
{
    if ops.len() == 0 {
        circulating
    } else {
        supply_after(supply_after_all(circulating, total, ops.drop_last()), total, ops.last())
    }
}

/// Whatever mints and burns are made, in whatever order, the circulating
/// supply stays between zero and the total supply.
pub proof fn lemma_supply_stays_capped(circulating: int, total: int, ops: Seq<SupplyOp>)
    requires
        0 <= circulating <= total,
    ensures
        0 <= supply_after_all(circulating, total, ops) <= total,
    decreases ops.len(),
{
    if ops.len() > 0 {
        lemma_supply_stays_capped(circulating, total, ops.drop_last());
    }
}

/// Issues `amount` new tokens to `ctx.to`, within the supply cap.
///
/// A mint of zero succeeds and asks the ledger for nothing.
pub fn mint_tokens(token_info: &mut TokenInfo, ctx: &MintTokens, amount: u64) -> (r: Result<
    Vec<TokenCall>,
    ErrorCode,
>)
    requires
        old(token_info).wf(),
    ensures
        final(token_info).wf(),
        final(token_info).circulating_supply == supply_after(
            old(token_info).circulating_supply as int,
            old(token_info).total_supply as int,
            SupplyOp::Mint(amount),
        ),
        old(token_info).circulating_supply + amount > old(token_info).total_supply ==> r == Err::<
            Vec<TokenCall>,
            ErrorCode,
        >(ErrorCode::ExceedsMaxSupply) && *final(token_info) == *old(token_info),
        old(token_info).circulating_supply + amount <= old(token_info).total_supply ==> {
            &&& *final(token_info) == (TokenInfo {
                circulating_supply: (old(token_info).circulating_supply + amount) as u64,
                ..*old(token_info)
            })
            &&& r matches Ok(c) && c@ == if amount == 0 {
                Seq::<TokenCall>::empty()
            } else {
                seq![
                    TokenCall::MintTo {
                        mint: old(token_info).mint,
                        to: ctx.to,
                        authority: ctx.authority,
                        amount,
                    },
                ]
            }
        },
{
    if amount > token_info.total_supply - token_info.circulating_supply {
        return Err(ErrorCode::ExceedsMaxSupply);
    }
    token_info.circulating_supply = token_info.circulating_supply + amount;
    let mut calls: Vec<TokenCall> = Vec::new();
    if amount > 0 {
        calls.push(TokenCall::MintTo { mint: token_info.mint, to: ctx.to, authority: ctx.authority, amount });
    }
    proof {
        if amount == 0 {
            assert(calls@ =~= Seq::<TokenCall>::empty());
        }
    }
    Ok(calls)
}

/// The ledger calls of a transfer of `amount` under the token's fee: the
/// fee to the treasury, when there is one, then the rest to the recipient.
pub open spec fn fee_transfer_calls(token_info: TokenInfo, ctx: TransferWithFee, amount: u64) -> Seq<TokenCall> {
    let fee = bps_share(amount as int, token_info.transfer_fee_basis_points as int);
    let to_recipient = TokenCall::Transfer {
        from: ctx.from,
        to: ctx.to,
        authority: ctx.authority,
        amount: (amount - fee) as u64,
    };
    if fee > 0 {
        seq![
            TokenCall::Transfer { from: ctx.from, to: token_info.treasury, authority: ctx.authority, amount: fee as u64 },
            to_recipient,
        ]
    } else {
        seq![to_recipient]
    }
}

/// Transfers `amount` from `ctx.from`, less the fee of
/// `floor(amount * fee_bps / 10000)` that goes to the treasury. Fee and
/// payment add up to exactly `amount`. A sender that holds less than
/// `amount` gets `InsufficientFunds`.
pub fn transfer_with_fee(token_info: &TokenInfo, ctx: &TransferWithFee, amount: u64) -> (r: Result<
    Vec<TokenCall>,
    ErrorCode,
>)
    requires
        token_info.transfer_fee_basis_points <= 10000,
    ensures
        amount > ctx.from_balance ==> r == Err::<Vec<TokenCall>, ErrorCode>(ErrorCode::InsufficientFunds),
        amount <= ctx.from_balance ==> (r matches Ok(c) && c@ == fee_transfer_calls(*token_info, *ctx, amount)
            && total_moved(c@) == amount),
{
    if amount > ctx.from_balance {
        return Err(ErrorCode::InsufficientFunds);
    }
    let (fee, sent) = split_bps(amount, token_info.transfer_fee_basis_points);
    let mut calls: Vec<TokenCall> = Vec::new();
    if fee > 0 {
        calls.push(TokenCall::Transfer { from: ctx.from, to: token_info.treasury, authority: ctx.authority, amount: fee });
    }
    calls.push(TokenCall::Transfer { from: ctx.from, to: ctx.to, authority: ctx.authority, amount: sent });
    proof {
        assert(calls@ =~= fee_transfer_calls(*token_info, *ctx, amount));
        if fee > 0 {
            let first = calls@.drop_last();
            assert(first.drop_last() =~= Seq::<TokenCall>::empty());
            assert(total_moved(first.drop_last()) == 0);
            assert(total_moved(first) == fee);
        } else {
            assert(calls@.drop_last() =~= Seq::<TokenCall>::empty());
            assert(total_moved(calls@.drop_last()) == 0);
        }
    }
    Ok(calls)
}

/// Destroys `amount` tokens held by `ctx.from`; no more than circulates.
pub fn burn_tokens(token_info: &mut TokenInfo, ctx: &BurnTokens, amount: u64) -> (r: Result<
    Vec<TokenCall>,
    ErrorCode,
>)
    requires
        old(token_info).wf(),
    ensures
        final(token_info).wf(),
        final(token_info).circulating_supply == supply_after(
            old(token_info).circulating_supply as int,
            old(token_info).total_supply as int,
            SupplyOp::Burn(amount),
        ),
        amount > old(token_info).circulating_supply ==> r == Err::<Vec<TokenCall>, ErrorCode>(
            ErrorCode::CirculationUnderflow,
        ) && *final(token_info) == *old(token_info),
        amount <= old(token_info).circulating_supply ==> {
            &&& *final(token_info) == (TokenInfo {
                circulating_supply: (old(token_info).circulating_supply - amount) as u64,
                ..*old(token_info)
            })
            &&& r matches Ok(c) && c@ == seq![
                TokenCall::Burn { mint: old(token_info).mint, from: ctx.from, authority: ctx.authority, amount },
            ]
        },
{
    if amount > token_info.circulating_supply {
        return Err(ErrorCode::CirculationUnderflow);
    }
    token_info.circulating_supply = token_info.circulating_supply - amount;
    Ok(vec![TokenCall::Burn { mint: token_info.mint, from: ctx.from, authority: ctx.authority, amount }])
}

} // verus!
