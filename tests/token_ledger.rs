use iamai_dao::address::Address;
use iamai_dao::bps::{bps_of, split_bps};
use iamai_dao::ledger::TokenCall;
use iamai_dao::token::{
    burn_tokens, initialize_token, mint_tokens, transfer_with_fee, BurnTokens, ErrorCode,
    InitializeToken, MintTokens, TokenInfo, TransferWithFee, TRANSFER_FEE_BPS,
};

fn addr(n: u128) -> Address {
    Address::new(0, n)
}

fn fresh_token(total_supply: u64) -> TokenInfo {
    let mut info = TokenInfo::default();
    let ctx = InitializeToken { mint: addr(1), treasury: addr(2), authority: addr(3) };
    initialize_token(&mut info, &ctx, "Iamai".to_string(), "IAM".to_string(), 6, total_supply)
        .unwrap();
    info
}

#[test]
fn initialize_sets_fields_and_fixed_fee() {
    let info = fresh_token(1_000_000);
    assert_eq!(info.name, "Iamai");
    assert_eq!(info.symbol, "IAM");
    assert_eq!(info.decimals, 6);
    assert_eq!(info.total_supply, 1_000_000);
    assert_eq!(info.circulating_supply, 0);
    assert_eq!(info.transfer_fee_basis_points, TRANSFER_FEE_BPS);
    assert_eq!(info.transfer_fee_basis_points, 10);
    assert_eq!(info.treasury, addr(2));
    assert!(info.is_initialized);
}

#[test]
fn initialize_twice_fails() {
    let mut info = fresh_token(100);
    let ctx = InitializeToken { mint: addr(9), treasury: addr(9), authority: addr(9) };
    let r = initialize_token(&mut info, &ctx, "X".to_string(), "X".to_string(), 0, 5);
    assert_eq!(r, Err(ErrorCode::AlreadyInitialized));
    assert_eq!(info.total_supply, 100);
    assert_eq!(info.mint, addr(1));
}

#[test]
fn mint_up_to_cap_then_one_more_fails() {
    let mut info = fresh_token(1_000_000);
    let ctx = MintTokens { to: addr(4), authority: addr(3) };
    let calls = mint_tokens(&mut info, &ctx, 1_000_000).unwrap();
    assert_eq!(
        calls,
        vec![TokenCall::MintTo { mint: addr(1), to: addr(4), authority: addr(3), amount: 1_000_000 }]
    );
    assert_eq!(info.circulating_supply, 1_000_000);
    assert_eq!(mint_tokens(&mut info, &ctx, 1), Err(ErrorCode::ExceedsMaxSupply));
    assert_eq!(info.circulating_supply, 1_000_000);
}

#[test]
fn mint_zero_is_a_no_op() {
    let mut info = fresh_token(10);
    let ctx = MintTokens { to: addr(4), authority: addr(3) };
    assert_eq!(mint_tokens(&mut info, &ctx, 0), Ok(vec![]));
    assert_eq!(info.circulating_supply, 0);
}

#[test]
fn mint_near_u64_max_does_not_overflow() {
    let mut info = fresh_token(u64::MAX);
    let ctx = MintTokens { to: addr(4), authority: addr(3) };
    assert!(mint_tokens(&mut info, &ctx, u64::MAX - 1).is_ok());
    assert_eq!(mint_tokens(&mut info, &ctx, 2), Err(ErrorCode::ExceedsMaxSupply));
    assert!(mint_tokens(&mut info, &ctx, 1).is_ok());
    assert_eq!(info.circulating_supply, u64::MAX);
}

#[test]
fn burn_reduces_supply_and_rejects_underflow() {
    let mut info = fresh_token(1000);
    let mint_ctx = MintTokens { to: addr(4), authority: addr(3) };
    mint_tokens(&mut info, &mint_ctx, 300).unwrap();
    let ctx = BurnTokens { from: addr(4), authority: addr(5) };
    let calls = burn_tokens(&mut info, &ctx, 100).unwrap();
    assert_eq!(
        calls,
        vec![TokenCall::Burn { mint: addr(1), from: addr(4), authority: addr(5), amount: 100 }]
    );
    assert_eq!(info.circulating_supply, 200);
    assert_eq!(burn_tokens(&mut info, &ctx, 201), Err(ErrorCode::CirculationUnderflow));
    assert_eq!(info.circulating_supply, 200);
}

#[test]
fn mint_and_burn_sequence_stays_within_cap() {
    let mut info = fresh_token(500);
    let mint_ctx = MintTokens { to: addr(4), authority: addr(3) };
    let burn_ctx = BurnTokens { from: addr(4), authority: addr(3) };
    let ops: [(bool, u64); 8] =
        [(true, 400), (true, 200), (false, 50), (true, 150), (false, 600), (false, 500), (true, 1), (false, 2)];
    for (is_mint, amount) in ops {
        if is_mint {
            let _ = mint_tokens(&mut info, &mint_ctx, amount);
        } else {
            let _ = burn_tokens(&mut info, &burn_ctx, amount);
        }
        assert!(info.circulating_supply <= info.total_supply);
    }
    assert_eq!(info.circulating_supply, 1);
}

#[test]
fn transfer_with_fee_splits_amount() {
    let info = fresh_token(1_000_000);
    let ctx = TransferWithFee { from: addr(4), to: addr(5), authority: addr(4), from_balance: 1_000_000 };
    let calls = transfer_with_fee(&info, &ctx, 100_000).unwrap();
    assert_eq!(
        calls,
        vec![
            TokenCall::Transfer { from: addr(4), to: addr(2), authority: addr(4), amount: 100 },
            TokenCall::Transfer { from: addr(4), to: addr(5), authority: addr(4), amount: 99_900 },
        ]
    );
}

#[test]
fn transfer_with_fee_small_amount_has_no_fee_call() {
    let info = fresh_token(1_000_000);
    let ctx = TransferWithFee { from: addr(4), to: addr(5), authority: addr(4), from_balance: 1_000_000 };
    let calls = transfer_with_fee(&info, &ctx, 999).unwrap();
    assert_eq!(calls, vec![TokenCall::Transfer { from: addr(4), to: addr(5), authority: addr(4), amount: 999 }]);
    assert_eq!(transfer_with_fee(&info, &ctx, 0).unwrap().len(), 1);
}

#[test]
fn fee_and_sent_add_up_exactly() {
    for amount in [0u64, 1, 999, 1000, 1001, 123_456_789, (1u64 << 63) - 1, u64::MAX] {
        let (fee, sent) = split_bps(amount, 10);
        assert_eq!(fee + sent, amount);
        assert_eq!(fee as u128, amount as u128 * 10 / 10000);
    }
}

#[test]
fn bps_of_uses_wide_product() {
    assert_eq!(bps_of(u64::MAX, 10000), u64::MAX);
    assert_eq!(bps_of(u64::MAX, 5000), u64::MAX / 2);
    assert_eq!(bps_of(12345, 250), 308);
    assert_eq!(bps_of(7, 0), 0);
}

#[test]
fn transfer_above_balance_fails() {
    let info = fresh_token(1_000_000);
    let ctx = TransferWithFee { from: addr(4), to: addr(5), authority: addr(4), from_balance: 500 };
    assert_eq!(transfer_with_fee(&info, &ctx, 501), Err(ErrorCode::InsufficientFunds));
    assert_eq!(transfer_with_fee(&info, &ctx, 500).unwrap().len(), 1);
}
