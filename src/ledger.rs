use vstd::prelude::*;
use crate::address::Address;

verus! {

/// A request to the token ledger, the outside capability that moves
/// balances. The engines of this crate decide which requests to make; the
/// host carries them out, in order, within the same transaction.
#[derive(Clone, Copy, Debug, PartialEq, Eq, Structural)]
pub enum TokenCall {
    /// Debits `from` and credits `to`, authorized by `authority`.
    Transfer { from: Address, to: Address, authority: Address, amount: u64 },
    /// Issues new tokens of `mint` to `to`, authorized by `authority`.
    MintTo { mint: Address, to: Address, authority: Address, amount: u64 },
    /// Destroys tokens of `mint` held by `from`, authorized by `authority`.
    Burn { mint: Address, from: Address, authority: Address, amount: u64 },
}

/// The sum of the amounts that `calls` move.
pub open spec fn total_moved(calls: Seq<TokenCall>) -> int
    decreases calls.len(),
{
    if calls.len() == 0 {
        0
    } else {
        let rest = total_moved(calls.drop_last());
        match calls.last() {
            TokenCall::Transfer { amount, .. } => rest + amount,
            TokenCall::MintTo { amount, .. } => rest + amount,
            TokenCall::Burn { amount, .. } => rest + amount,
        }
    }
}

} // verus!
