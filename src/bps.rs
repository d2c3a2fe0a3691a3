use vstd::prelude::*;

verus! {

/// The number of basis points in a whole: rates are expressed in 1/10000.
pub const BPS_DENOMINATOR: u64 = 10000;

/// `floor(amount * bps / 10000)`.
pub open spec fn bps_share(amount: int, bps: int) -> int {
    (amount * bps) / 10000
}

proof fn lemma_bps_share_bounded(amount: int, bps: int)
    requires
        0 <= amount,
        0 <= bps <= 10000,
    ensures
        0 <= bps_share(amount, bps) <= amount,
{
    assert(0 <= amount * bps <= amount * 10000) by (nonlinear_arith)
        requires
            0 <= amount,
            0 <= bps <= 10000,
    ;
}

/// The share of `amount` that `bps` basis points stand for, rounded down.
///
/// The product is formed in 128 bits, so no amount can overflow it.
pub fn bps_of(amount: u64, bps: u16) -> (r: u64)
    requires
        bps <= 10000,
    ensures
        r == bps_share(amount as int, bps as int),
        r <= amount,
{
    proof {
        lemma_bps_share_bounded(amount as int, bps as int);
        assert(amount as int * bps as int <= u64::MAX as int * 10000) by (nonlinear_arith)
            requires
                bps <= 10000,
                amount <= u64::MAX,
        ;
    }
    let wide: u128 = (amount as u128) * (bps as u128) / 10000;
    wide as u64
}

/// Splits `amount` into the share that `bps` basis points stand for and the
/// remainder: `(cut, rest)` with `cut + rest == amount`.
pub fn split_bps(amount: u64, bps: u16) -> (r: (u64, u64))
    requires
        bps <= 10000,
    ensures
        r.0 == bps_share(amount as int, bps as int),
        r.1 == amount - bps_share(amount as int, bps as int),
        r.0 + r.1 == amount,
{
    let cut = bps_of(amount, bps);
    (cut, amount - cut)
}

} // verus!
