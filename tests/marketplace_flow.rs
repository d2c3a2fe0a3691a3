use iamai_dao::address::Address;
use iamai_dao::ledger::TokenCall;
use iamai_dao::marketplace::{
    get_model_access, initialize_marketplace, list_model, purchase_model, rate_model, update_model_status,
    ErrorCode, GetModelAccess, InitializeMarketplace, ListModel, Marketplace, ModelListing, ModelReview,
    ModelType, PurchaseModel, PurchaseRecord, RateModel, UpdateModelStatus,
};

fn addr(n: u128) -> Address {
    Address::new(0, n)
}

fn market(royalty_bps: u16) -> Marketplace {
    initialize_marketplace(&InitializeMarketplace { token_mint: addr(1), treasury: addr(2), authority: addr(3) }, royalty_bps)
}

fn listing(m: &mut Marketplace, price: u64) -> ModelListing {
    let ctx = ListModel { marketplace: addr(50), creator: addr(60) };
    list_model(m, &ctx, 42, "Net".to_string(), "A model".to_string(), price, "QmHash".to_string(), ModelType::LanguageModel)
        .unwrap()
}

fn buy_ctx(buyer: u128) -> PurchaseModel {
    PurchaseModel { model_listing: addr(70), buyer: addr(buyer), buyer_token_account: addr(buyer + 1000), creator_token_account: addr(61), buyer_balance: u64::MAX }
}

#[test]
fn list_model_starts_active_and_counts() {
    let mut m = market(500);
    let l = listing(&mut m, 1000);
    assert_eq!(m.total_models, 1);
    assert!(l.is_active);
    assert_eq!(l.price, 1000);
    assert_eq!(l.created_at, 42);
    assert_eq!(l.ipfs_hash, "QmHash");
    assert_eq!(l.creator, addr(60));
    assert_eq!((l.sales_count, l.rating_count, l.rating_sum), (0, 0, 0));
}

#[test]
fn purchase_splits_royalty_and_records_access() {
    let mut m = market(250);
    let mut l = listing(&mut m, 1000);
    let mut purchases = Vec::new();
    let calls = purchase_model(&mut m, &mut l, &mut purchases, &buy_ctx(80), 77).unwrap();
    assert_eq!(
        calls,
        vec![
            TokenCall::Transfer { from: addr(1080), to: addr(2), authority: addr(80), amount: 25 },
            TokenCall::Transfer { from: addr(1080), to: addr(61), authority: addr(80), amount: 975 },
        ]
    );
    assert_eq!(purchases, vec![PurchaseRecord { buyer: addr(80), model: addr(70), price_paid: 1000, purchased_at: 77, has_access: true }]);
    assert_eq!((l.sales_count, l.total_revenue), (1, 1000));
    assert_eq!((m.total_sales, m.total_volume), (1, 1000));
}

#[test]
fn royalty_and_creator_amount_sum_to_price() {
    for (price, bps) in [(0u64, 250u16), (1, 9999), (39, 250), (1_000_001, 10000), (u64::MAX, 3333)] {
        let mut m = market(bps);
        let mut l = listing(&mut m, price);
        let mut purchases = Vec::new();
        let calls = purchase_model(&mut m, &mut l, &mut purchases, &buy_ctx(80), 1).unwrap();
        let mut sum: u128 = 0;
        for c in &calls {
            if let TokenCall::Transfer { amount, .. } = c {
                sum += *amount as u128;
            }
        }
        assert_eq!(sum, price as u128);
    }
}

#[test]
fn zero_royalty_pays_creator_only() {
    let mut m = market(0);
    let mut l = listing(&mut m, 500);
    let mut purchases = Vec::new();
    let calls = purchase_model(&mut m, &mut l, &mut purchases, &buy_ctx(80), 1).unwrap();
    assert_eq!(calls, vec![TokenCall::Transfer { from: addr(1080), to: addr(61), authority: addr(80), amount: 500 }]);
}

#[test]
fn second_purchase_by_same_buyer_fails() {
    let mut m = market(250);
    let mut l = listing(&mut m, 1000);
    let mut purchases = Vec::new();
    purchase_model(&mut m, &mut l, &mut purchases, &buy_ctx(80), 1).unwrap();
    assert_eq!(purchase_model(&mut m, &mut l, &mut purchases, &buy_ctx(80), 2), Err(ErrorCode::AlreadyPurchased));
    assert_eq!(purchases.len(), 1);
    assert_eq!(l.sales_count, 1);
    assert_eq!(m.total_volume, 1000);
    assert!(purchase_model(&mut m, &mut l, &mut purchases, &buy_ctx(81), 3).is_ok());
    assert_eq!(purchases.len(), 2);
}

#[test]
fn inactive_listing_cannot_be_bought() {
    let mut m = market(250);
    let mut l = listing(&mut m, 1000);
    let mut purchases = Vec::new();
    assert_eq!(update_model_status(&mut l, &UpdateModelStatus { creator: addr(61) }, false), Err(ErrorCode::Unauthorized));
    assert!(l.is_active);
    assert_eq!(update_model_status(&mut l, &UpdateModelStatus { creator: addr(60) }, false), Ok(()));
    assert_eq!(purchase_model(&mut m, &mut l, &mut purchases, &buy_ctx(80), 1), Err(ErrorCode::ModelNotActive));
    assert!(purchases.is_empty());
}

#[test]
fn rating_requires_purchase_and_valid_value() {
    let mut m = market(250);
    let mut l = listing(&mut m, 1000);
    let mut purchases = Vec::new();
    let mut reviews: Vec<ModelReview> = Vec::new();
    let ctx = RateModel { model_listing: addr(70), reviewer: addr(80) };
    assert_eq!(rate_model(&mut l, &purchases, &mut reviews, &ctx, 5, 4, "ok".to_string()), Err(ErrorCode::NoAccessToModel));
    purchase_model(&mut m, &mut l, &mut purchases, &buy_ctx(80), 1).unwrap();
    assert_eq!(rate_model(&mut l, &purchases, &mut reviews, &ctx, 5, 0, "bad".to_string()), Err(ErrorCode::InvalidRating));
    assert_eq!(rate_model(&mut l, &purchases, &mut reviews, &ctx, 5, 6, "bad".to_string()), Err(ErrorCode::InvalidRating));
    assert_eq!(rate_model(&mut l, &purchases, &mut reviews, &ctx, 5, 4, "good".to_string()), Ok(()));
    assert_eq!((l.rating_sum, l.rating_count), (4, 1));
    assert_eq!(reviews.len(), 1);
    assert_eq!(reviews[0].review, "good");
    assert_eq!(reviews[0].rating, 4);
    assert_eq!(rate_model(&mut l, &purchases, &mut reviews, &ctx, 6, 5, "again".to_string()), Err(ErrorCode::AlreadyReviewed));
    assert_eq!((l.rating_sum, l.rating_count), (4, 1));
}

#[test]
fn model_access_reads_purchase_record() {
    let mut m = market(250);
    let mut l = listing(&mut m, 1000);
    let mut purchases = Vec::new();
    let ctx = GetModelAccess { model_listing: addr(70), user: addr(80) };
    assert_eq!(get_model_access(&purchases, &ctx), Err(ErrorCode::NoAccessToModel));
    purchase_model(&mut m, &mut l, &mut purchases, &buy_ctx(80), 1).unwrap();
    assert_eq!(get_model_access(&purchases, &ctx), Ok(true));
    assert_eq!(get_model_access(&purchases, &GetModelAccess { model_listing: addr(70), user: addr(81) }), Err(ErrorCode::NoAccessToModel));
}

#[test]
fn purchase_counter_overflow_is_rejected() {
    let mut m = market(250);
    let mut l = listing(&mut m, 10);
    m.total_volume = u64::MAX - 5;
    let mut purchases = Vec::new();
    assert_eq!(purchase_model(&mut m, &mut l, &mut purchases, &buy_ctx(80), 1), Err(ErrorCode::ArithmeticOverflow));
    assert!(purchases.is_empty());
    assert_eq!(l.sales_count, 0);
}

#[test]
fn purchase_above_balance_fails() {
    let mut m = market(250);
    let mut l = listing(&mut m, 1000);
    let mut purchases = Vec::new();
    let mut ctx = buy_ctx(80);
    ctx.buyer_balance = 999;
    assert_eq!(purchase_model(&mut m, &mut l, &mut purchases, &ctx, 1), Err(ErrorCode::InsufficientFunds));
    assert!(purchases.is_empty());
    ctx.buyer_balance = 1000;
    assert!(purchase_model(&mut m, &mut l, &mut purchases, &ctx, 1).is_ok());
}
