use vstd::prelude::*;
use crate::address::Address;
use crate::bps::{bps_share, split_bps};
use crate::ledger::{total_moved, TokenCall};

verus! {

/// A marketplace: its treasury, its royalty rate, and its totals.
#[derive(Clone, Copy, Debug, PartialEq, Eq, Structural)]
pub struct Marketplace {
    pub authority: Address,
    pub token_mint: Address,
    pub treasury: Address,
    /// Basis points of each sale that go to the treasury.
    pub royalty_percentage: u16,
    pub total_models: u64,
    pub total_sales: u64,
    pub total_volume: u64,
    pub is_initialized: bool,
}

impl Marketplace {
    /// The royalty rate is at most a whole.
    pub open spec fn wf(&self) -> bool {
        self.royalty_percentage <= 10000
    }
}

/// A model offered for sale, with its sales and ratings.
#[derive(Clone, Debug)]
pub struct ModelListing {
    pub marketplace: Address,
    pub creator: Address,
    pub title: String,
    pub description: String,
    pub price: u64,
    pub ipfs_hash: String,
    pub model_type: ModelType,
    pub created_at: i64,
    pub sales_count: u64,
    pub total_revenue: u64,
    pub is_active: bool,
    pub rating_sum: u64,
    pub rating_count: u64,
}

/// The purchase of one model by one buyer.
#[derive(Clone, Copy, Debug, PartialEq, Eq, Structural)]
pub struct PurchaseRecord {
    pub buyer: Address,
    pub model: Address,
    pub price_paid: u64,
    pub purchased_at: i64,
    pub has_access: bool,
}

/// The review of one model by one buyer of it.
#[derive(Clone, Debug)]
pub struct ModelReview {
    pub reviewer: Address,
    pub model: Address,
    pub rating: u8,
    pub review: String,
    pub created_at: i64,
}

#[derive(Clone, Copy, Debug, PartialEq, Eq, Structural)]
pub enum ModelType {
    LanguageModel,
    ImageGeneration,
    AudioProcessing,
    DataAnalysis,
    ComputerVision,
    Other,
}

/// The accounts that `initialize_marketplace` reads.
#[derive(Clone, Copy, Debug, PartialEq, Eq, Structural)]
pub struct InitializeMarketplace {
    pub token_mint: Address,
    pub treasury: Address,
    pub authority: Address,
}

/// The accounts that `list_model` reads.
#[derive(Clone, Copy, Debug, PartialEq, Eq, Structural)]
pub struct ListModel {
    pub marketplace: Address,
    pub creator: Address,
}

/// The accounts that `purchase_model` reads, and the buyer's balance. The
/// royalty goes to the marketplace's own treasury.
#[derive(Clone, Copy, Debug, PartialEq, Eq, Structural)]
pub struct PurchaseModel {
    pub model_listing: Address,
    pub buyer: Address,
    pub buyer_token_account: Address,
    pub creator_token_account: Address,
    pub buyer_balance: u64,
}

/// The accounts that `rate_model` reads.
#[derive(Clone, Copy, Debug, PartialEq, Eq, Structural)]
pub struct RateModel {
    pub model_listing: Address,
    pub reviewer: Address,
}

/// The accounts that `update_model_status` reads: the signer.
#[derive(Clone, Copy, Debug, PartialEq, Eq, Structural)]
pub struct UpdateModelStatus {
    pub creator: Address,
}

/// The accounts that `get_model_access` reads.
#[derive(Clone, Copy, Debug, PartialEq, Eq, Structural)]
pub struct GetModelAccess {
    pub model_listing: Address,
    pub user: Address,
}

#[derive(Clone, Copy, Debug, PartialEq, Eq, Structural)]
pub enum ErrorCode {
    ModelNotActive,
    InvalidRating,
    NoAccessToModel,
    Unauthorized,
    InsufficientFunds,
    /// The buyer has already bought this model.
    AlreadyPurchased,
    /// This buyer has already rated this model.
    AlreadyReviewed,
    /// A result or a running total would not fit its integer type.
    ArithmeticOverflow,
}

/// Creates a marketplace with empty totals.
pub fn initialize_marketplace(ctx: &InitializeMarketplace, royalty_percentage: u16) -> (r: Marketplace)
    requires
        royalty_percentage <= 10000,
    ensures
        r.wf(),
        r == (Marketplace {
            authority: ctx.authority,
            token_mint: ctx.token_mint,
            treasury: ctx.treasury,
            royalty_percentage,
            total_models: 0,
            total_sales: 0,
            total_volume: 0,
            is_initialized: true,
        }),
{
    Marketplace {
        authority: ctx.authority,
        token_mint: ctx.token_mint,
        treasury: ctx.treasury,
        royalty_percentage,
        total_models: 0,
        total_sales: 0,
        total_volume: 0,
        is_initialized: true,
    }
}

/// Lists a model for sale at `price`: the listing starts active, with no
/// sales and no ratings, and the marketplace counts one model more.
pub fn list_model(
    marketplace: &mut Marketplace,
    ctx: &ListModel,
    now: i64,
    title: String,
    description: String,
    price: u64,
    ipfs_hash: String,
    model_type: ModelType,
) -> (r: Result<ModelListing, ErrorCode>)
    ensures
        old(marketplace).total_models == u64::MAX ==> (r matches Err(e) && e == ErrorCode::ArithmeticOverflow)
            && *final(marketplace) == *old(marketplace),
        old(marketplace).total_models < u64::MAX ==> {
            &&& *final(marketplace) == (Marketplace {
                total_models: (old(marketplace).total_models + 1) as u64,
                ..*old(marketplace)
            })
            &&& r matches Ok(m) && {
                &&& m.marketplace == ctx.marketplace
                &&& m.creator == ctx.creator
                &&& m.title@ == title@
                &&& m.description@ == description@
                &&& m.price == price
                &&& m.ipfs_hash@ == ipfs_hash@
                &&& m.model_type == model_type
                &&& m.created_at == now
                &&& m.sales_count == 0 && m.total_revenue == 0
                &&& m.is_active
                &&& m.rating_sum == 0 && m.rating_count == 0
            }
        },
{
    if marketplace.total_models == u64::MAX {
        return Err(ErrorCode::ArithmeticOverflow);
    }
    marketplace.total_models = marketplace.total_models + 1;
    Ok(
        ModelListing {
            marketplace: ctx.marketplace,
            creator: ctx.creator,
            title,
            description,
            price,
            ipfs_hash,
            model_type,
            created_at: now,
            sales_count: 0,
            total_revenue: 0,
            is_active: true,
            rating_sum: 0,
            rating_count: 0,
        },
    )
}

/// Whether `purchases` holds a purchase of `model` by `buyer`.
pub open spec fn purchase_key_taken(purchases: Seq<PurchaseRecord>, model: Address, buyer: Address) -> bool {
    exists|i: int|
        0 <= i < purchases.len() && (#[trigger] purchases[i]).model == model && purchases[i].buyer == buyer
}

/// Whether `purchases` holds a purchase of `model` by `buyer` that grants
/// access.
pub open spec fn access_granted(purchases: Seq<PurchaseRecord>, model: Address, buyer: Address) -> bool {
    exists|i: int|
        0 <= i < purchases.len() && (#[trigger] purchases[i]).model == model && purchases[i].buyer == buyer
            && purchases[i].has_access
}

/// No two purchases of the store share a (model, buyer) pair.
pub open spec fn purchases_unique(purchases: Seq<PurchaseRecord>) -> bool {
    forall|i: int, j: int|
        0 <= i < purchases.len() && 0 <= j < purchases.len() && i != j ==> !((#[trigger] purchases[i]).model
            == (#[trigger] purchases[j]).model && purchases[i].buyer == purchases[j].buyer)
}

/// Whether `purchases` holds a purchase of `model` by `buyer`.
pub fn has_purchase(purchases: &Vec<PurchaseRecord>, model: Address, buyer: Address) -> (r: bool)
    ensures
        r == purchase_key_taken(purchases@, model, buyer),
{
    let mut i: usize = 0;
    while i < purchases.len()
        invariant
            i <= purchases.len(),
            forall|k: int|
                0 <= k < i ==> !((#[trigger] purchases@[k]).model == model && purchases@[k].buyer == buyer),
        decreases purchases.len() - i,
    {
        if purchases[i].model == model && purchases[i].buyer == buyer {
            return true;
        }
        i += 1;
    }
    false
}

/// Whether `purchases` holds a purchase of `model` by `buyer` that grants
/// access.
pub fn has_access(purchases: &Vec<PurchaseRecord>, model: Address, buyer: Address) -> (r: bool)
    ensures
        r == access_granted(purchases@, model, buyer),
{
    let mut i: usize = 0;
    while i < purchases.len()
        invariant
            i <= purchases.len(),
            forall|k: int|
                0 <= k < i ==> !((#[trigger] purchases@[k]).model == model && purchases@[k].buyer == buyer
                    && purchases@[k].has_access),
        decreases purchases.len() - i,
    {
        if purchases[i].model == model && purchases[i].buyer == buyer && purchases[i].has_access {
            return true;
        }
        i += 1;
    }
    false
}

/// The ledger calls that pay for `listing`: the royalty to the treasury,
/// when there is one, then the rest of the price to the creator, both
/// debited from the buyer.
pub open spec fn purchase_calls(marketplace: Marketplace, listing: ModelListing, ctx: PurchaseModel) -> Seq<
    TokenCall,
> {
    let royalty = bps_share(listing.price as int, marketplace.royalty_percentage as int);
    let to_creator = TokenCall::Transfer {
        from: ctx.buyer_token_account,
        to: ctx.creator_token_account,
        authority: ctx.buyer,
        amount: (listing.price - royalty) as u64,
    };
    if royalty > 0 {
        seq![
            TokenCall::Transfer {
                from: ctx.buyer_token_account,
                to: marketplace.treasury,
                authority: ctx.buyer,
                amount: royalty as u64,
            },
            to_creator,
        ]
    } else {
        seq![to_creator]
    }
}

/// The error of `purchase_model`, if it fails.
pub open spec fn purchase_error(
    marketplace: Marketplace,
    listing: ModelListing,
    purchases: Seq<PurchaseRecord>,
    ctx: PurchaseModel,
) -> Option<ErrorCode> {
    if !listing.is_active {
        Some(ErrorCode::ModelNotActive)
    } else if purchase_key_taken(purchases, ctx.model_listing, ctx.buyer) {
        Some(ErrorCode::AlreadyPurchased)
    } else if listing.price > ctx.buyer_balance {
        Some(ErrorCode::InsufficientFunds)
    } else if listing.sales_count + 1 > u64::MAX || listing.total_revenue + listing.price > u64::MAX
        || marketplace.total_sales + 1 > u64::MAX || marketplace.total_volume + listing.price > u64::MAX {
        Some(ErrorCode::ArithmeticOverflow)
    } else {
        None
    }
}

/// Buys an active listing for `ctx.buyer` at its price.
///
/// The price is split into `floor(price * royalty / 10000)` for the
/// treasury and the rest for the creator; the returned calls make both
/// payments, and together they move exactly the price. A purchase record
/// granting access is appended to `purchases`, the store of purchase
/// records, and the listing's and marketplace's totals count the sale. A
/// buyer buys a model once: a second purchase fails with
/// `AlreadyPurchased`. A buyer that holds less than the price gets
/// `InsufficientFunds`.
pub fn purchase_model(
    marketplace: &mut Marketplace,
    listing: &mut ModelListing,
    purchases: &mut Vec<PurchaseRecord>,
    ctx: &PurchaseModel,
    now: i64,
) -> (r: Result<Vec<TokenCall>, ErrorCode>)
    requires
        old(marketplace).wf(),
    ensures
        final(marketplace).wf(),
        purchases_unique(old(purchases)@) ==> purchases_unique(final(purchases)@),
        match purchase_error(*old(marketplace), *old(listing), old(purchases)@, *ctx) {
            Some(e) => {
                &&& r == Err::<Vec<TokenCall>, ErrorCode>(e)
                &&& *final(marketplace) == *old(marketplace)
                &&& *final(listing) == *old(listing)
                &&& final(purchases)@ == old(purchases)@
            },
            None => {
                &&& r matches Ok(c) && c@ == purchase_calls(*old(marketplace), *old(listing), *ctx)
                    && total_moved(c@) == old(listing).price
                &&& final(purchases)@ == old(purchases)@.push(
                    PurchaseRecord {
                        buyer: ctx.buyer,
                        model: ctx.model_listing,
                        price_paid: old(listing).price,
                        purchased_at: now,
                        has_access: true,
                    },
                )
                &&& *final(listing) == (ModelListing {
                    sales_count: (old(listing).sales_count + 1) as u64,
                    total_revenue: (old(listing).total_revenue + old(listing).price) as u64,
                    ..*old(listing)
                })
                &&& *final(marketplace) == (Marketplace {
                    total_sales: (old(marketplace).total_sales + 1) as u64,
                    total_volume: (old(marketplace).total_volume + old(listing).price) as u64,
                    ..*old(marketplace)
                })
            },
        },
{
    if !listing.is_active {
        return Err(ErrorCode::ModelNotActive);
    }
    if has_purchase(purchases, ctx.model_listing, ctx.buyer) {
        return Err(ErrorCode::AlreadyPurchased);
    }
    let price = listing.price;
    if price > ctx.buyer_balance {
        return Err(ErrorCode::InsufficientFunds);
    }
    if listing.sales_count == u64::MAX || listing.total_revenue > u64::MAX - price || marketplace.total_sales
        == u64::MAX || marketplace.total_volume > u64::MAX - price {
        return Err(ErrorCode::ArithmeticOverflow);
    }
    let (royalty, creator_amount) = split_bps(price, marketplace.royalty_percentage);
    let mut calls: Vec<TokenCall> = Vec::new();
    if royalty > 0 {
        calls.push(
            TokenCall::Transfer {
                from: ctx.buyer_token_account,
                to: marketplace.treasury,
                authority: ctx.buyer,
                amount: royalty,
            },
        );
    }
    calls.push(
        TokenCall::Transfer {
            from: ctx.buyer_token_account,
            to: ctx.creator_token_account,
            authority: ctx.buyer,
            amount: creator_amount,
        },
    );
    purchases.push(
        PurchaseRecord { buyer: ctx.buyer, model: ctx.model_listing, price_paid: price, purchased_at: now, has_access: true },
    );
    listing.sales_count = listing.sales_count + 1;
    listing.total_revenue = listing.total_revenue + price;
    marketplace.total_sales = marketplace.total_sales + 1;
    marketplace.total_volume = marketplace.total_volume + price;
    proof {
        let s = old(purchases)@;
        let n = s.len() as int;
        assert forall|i: int, j: int|
            purchases_unique(s) && 0 <= i < purchases@.len() && 0 <= j < purchases@.len() && i != j implies !(
            (#[trigger] purchases@[i]).model == (#[trigger] purchases@[j]).model && purchases@[i].buyer
                == purchases@[j].buyer) by {
            if i == n {
                assert(purchases@[j] == s[j]);
            } else if j == n {
                assert(purchases@[i] == s[i]);
            } else {
                assert(purchases@[i] == s[i]);
                assert(purchases@[j] == s[j]);
            }
        }
        let expected = purchase_calls(*old(marketplace), *old(listing), *ctx);
        assert(calls@ =~= expected);
        if royalty > 0 {
            let first = calls@.drop_last();
            assert(first.drop_last() =~= Seq::<TokenCall>::empty());
            assert(total_moved(first.drop_last()) == 0);
            assert(total_moved(first) == royalty);
            assert(total_moved(calls@) == royalty + creator_amount);
        } else {
            assert(calls@.drop_last() =~= Seq::<TokenCall>::empty());
            assert(total_moved(calls@.drop_last()) == 0);
            assert(total_moved(calls@) == creator_amount);
        }
    }
    Ok(calls)
}

/// Whether `reviews` holds one of `model` written by the given account.
pub open spec fn review_key_taken(reviews: Seq<ModelReview>, model: Address, reviewer: Address) -> bool {
    exists|i: int| 0 <= i < reviews.len() && (#[trigger] reviews[i]).model == model && reviews[i].reviewer == reviewer
}

/// Whether `reviews` holds one of `model` written by the given account.
pub fn has_review(reviews: &Vec<ModelReview>, model: Address, reviewer: Address) -> (r: bool)
    ensures
        r == review_key_taken(reviews@, model, reviewer),
{
    let mut i: usize = 0;
    while i < reviews.len()
        invariant
            i <= reviews.len(),
            forall|k: int|
                0 <= k < i ==> !((#[trigger] reviews@[k]).model == model && reviews@[k].reviewer == reviewer),
        decreases reviews.len() - i,
    {
        if reviews[i].model == model && reviews[i].reviewer == reviewer {
            return true;
        }
        i += 1;
    }
    false
}

/// The error of `rate_model`, if it fails.
pub open spec fn rate_error(
    listing: ModelListing,
    purchases: Seq<PurchaseRecord>,
    reviews: Seq<ModelReview>,
    ctx: RateModel,
    rating: u8,
) -> Option<ErrorCode> {
    if rating < 1 || rating > 5 {
        Some(ErrorCode::InvalidRating)
    } else if !access_granted(purchases, ctx.model_listing, ctx.reviewer) {
        Some(ErrorCode::NoAccessToModel)
    } else if review_key_taken(reviews, ctx.model_listing, ctx.reviewer) {
        Some(ErrorCode::AlreadyReviewed)
    } else if listing.rating_sum + rating > u64::MAX || listing.rating_count + 1 > u64::MAX {
        Some(ErrorCode::ArithmeticOverflow)
    } else {
        None
    }
}

/// Records the review of a buyer with access to the model: a rating from 1
/// to 5 and a text. The review is appended to `reviews`, the store of
/// reviews, and the listing's rating sum and count take it in. Each buyer
/// reviews a model once.
pub fn rate_model(
    listing: &mut ModelListing,
    purchases: &Vec<PurchaseRecord>,
    reviews: &mut Vec<ModelReview>,
    ctx: &RateModel,
    now: i64,
    rating: u8,
    review: String,
) -> (r: Result<(), ErrorCode>)
    ensures
        old(listing).rating_count == review_count(old(reviews)@, ctx.model_listing) ==> final(listing).rating_count
            == review_count(final(reviews)@, ctx.model_listing),
        reviews_unique(old(reviews)@) ==> reviews_unique(final(reviews)@),
        reviews_backed(old(reviews)@, purchases@) ==> reviews_backed(final(reviews)@, purchases@),
        match rate_error(*old(listing), purchases@, old(reviews)@, *ctx, rating) {
            Some(e) => {
                &&& r == Err::<(), ErrorCode>(e)
                &&& *final(listing) == *old(listing)
                &&& final(reviews)@ == old(reviews)@
            },
            None => {
                &&& r == Ok::<(), ErrorCode>(())
                &&& final(reviews)@.len() == old(reviews)@.len() + 1
                &&& final(reviews)@.drop_last() == old(reviews)@
                &&& final(reviews)@.last().reviewer == ctx.reviewer
                &&& final(reviews)@.last().model == ctx.model_listing
                &&& final(reviews)@.last().rating == rating
                &&& final(reviews)@.last().review@ == review@
                &&& final(reviews)@.last().created_at == now
                &&& *final(listing) == (ModelListing {
                    rating_sum: (old(listing).rating_sum + rating) as u64,
                    rating_count: (old(listing).rating_count + 1) as u64,
                    ..*old(listing)
                })
            },
        },
{
    if rating < 1 || rating > 5 {
        return Err(ErrorCode::InvalidRating);
    }
    if !has_access(purchases, ctx.model_listing, ctx.reviewer) {
        return Err(ErrorCode::NoAccessToModel);
    }
    if has_review(reviews, ctx.model_listing, ctx.reviewer) {
        return Err(ErrorCode::AlreadyReviewed);
    }
    if listing.rating_sum > u64::MAX - rating as u64 || listing.rating_count == u64::MAX {
        return Err(ErrorCode::ArithmeticOverflow);
    }
    reviews.push(ModelReview { reviewer: ctx.reviewer, model: ctx.model_listing, rating, review, created_at: now });
    listing.rating_sum = listing.rating_sum + rating as u64;
    listing.rating_count = listing.rating_count + 1;
    proof {
        let s = old(reviews)@;
        let n = s.len() as int;
        assert(reviews@.drop_last() =~= s);
        assert forall|i: int, j: int|
            reviews_unique(s) && 0 <= i < reviews@.len() && 0 <= j < reviews@.len() && i != j implies !(
            (#[trigger] reviews@[i]).model == (#[trigger] reviews@[j]).model && reviews@[i].reviewer
                == reviews@[j].reviewer) by {
            if i == n {
                assert(reviews@[j] == s[j]);
            } else if j == n {
                assert(reviews@[i] == s[i]);
            } else {
                assert(reviews@[i] == s[i]);
                assert(reviews@[j] == s[j]);
            }
        }
        assert forall|i: int|
            reviews_backed(s, purchases@) && 0 <= i < reviews@.len() implies access_granted(
            purchases@,
            (#[trigger] reviews@[i]).model,
            reviews@[i].reviewer,
        ) by {
            if i < n {
                assert(reviews@[i] == s[i]);
            }
        }
    }
    Ok(())
}

/// Opens or closes a listing for sale; only its creator may.
pub fn update_model_status(listing: &mut ModelListing, ctx: &UpdateModelStatus, is_active: bool) -> (r:
    Result<(), ErrorCode>)
    ensures
        ctx.creator != old(listing).creator ==> r == Err::<(), ErrorCode>(ErrorCode::Unauthorized)
            && *final(listing) == *old(listing),
        ctx.creator == old(listing).creator ==> r == Ok::<(), ErrorCode>(()) && *final(listing) == (
        ModelListing { is_active, ..*old(listing) }),
{
    if ctx.creator != listing.creator {
        return Err(ErrorCode::Unauthorized);
    }
    listing.is_active = is_active;
    Ok(())
}

/// Whether `ctx.user` has access to the model: the access flag of their
/// purchase record. Without a purchase record there is nothing to read, and
/// the result is `NoAccessToModel`.
pub fn get_model_access(purchases: &Vec<PurchaseRecord>, ctx: &GetModelAccess) -> (r: Result<bool, ErrorCode>)
    ensures
        !purchase_key_taken(purchases@, ctx.model_listing, ctx.user) ==> r == Err::<bool, ErrorCode>(
            ErrorCode::NoAccessToModel,
        ),
        purchase_key_taken(purchases@, ctx.model_listing, ctx.user) ==> r == Ok::<bool, ErrorCode>(
            access_granted(purchases@, ctx.model_listing, ctx.user),
        ),
{
    if !has_purchase(purchases, ctx.model_listing, ctx.user) {
        return Err(ErrorCode::NoAccessToModel);
    }
    Ok(has_access(purchases, ctx.model_listing, ctx.user))
}

/// The number of reviews of `model` in `reviews`.
pub open spec fn review_count(reviews: Seq<ModelReview>, model: Address) -> int
    decreases reviews.len(),
{
    if reviews.len() == 0 {
        0
    } else {
        review_count(reviews.drop_last(), model) + if reviews.last().model == model { 1int } else { 0int }
    }
}

/// The number of purchases of `model` in `purchases` that grant access.
pub open spec fn access_count(purchases: Seq<PurchaseRecord>, model: Address) -> int
    decreases purchases.len(),
{
    if purchases.len() == 0 {
        0
    } else {
        access_count(purchases.drop_last(), model) + if purchases.last().model == model
            && purchases.last().has_access { 1int } else { 0int }
    }
}

/// No two entries of `reviews` share both model and author.
pub open spec fn reviews_unique(reviews: Seq<ModelReview>) -> bool {
    forall|i: int, j: int|
        0 <= i < reviews.len() && 0 <= j < reviews.len() && i != j ==> !((#[trigger] reviews[i]).model
            == (#[trigger] reviews[j]).model && reviews[i].reviewer == reviews[j].reviewer)
}

/// Every review comes from a buyer whose purchase grants access.
pub open spec fn reviews_backed(reviews: Seq<ModelReview>, purchases: Seq<PurchaseRecord>) -> bool {
    forall|i: int| 0 <= i < reviews.len() ==> access_granted(purchases, (#[trigger] reviews[i]).model, reviews[i].reviewer)
}

proof fn lemma_access_count_remove(purchases: Seq<PurchaseRecord>, j: int, model: Address)
    requires
        0 <= j < purchases.len(),
        purchases[j].model == model,
        purchases[j].has_access,
    ensures
        access_count(purchases.remove(j), model) == access_count(purchases, model) - 1,
    decreases purchases.len(),
{
    let removed = purchases.remove(j);
    if j == purchases.len() - 1 {
        assert(removed =~= purchases.drop_last());
    } else {
        assert(removed.drop_last() =~= purchases.drop_last().remove(j));
        assert(removed.last() == purchases.last());
        lemma_access_count_remove(purchases.drop_last(), j, model);
    }
}

proof fn lemma_access_count_nonneg(purchases: Seq<PurchaseRecord>, model: Address)
    ensures
        access_count(purchases, model) >= 0,
    decreases purchases.len(),
{
    if purchases.len() > 0 {
        lemma_access_count_nonneg(purchases.drop_last(), model);
    }
}

proof fn lemma_review_count_bounded(reviews: Seq<ModelReview>, purchases: Seq<PurchaseRecord>, model: Address)
    requires
        reviews_unique(reviews),
        forall|i: int|
            0 <= i < reviews.len() && (#[trigger] reviews[i]).model == model ==> access_granted(
                purchases,
                model,
                reviews[i].reviewer,
            ),
    ensures
        review_count(reviews, model) <= access_count(purchases, model),
    decreases reviews.len(),
{
    lemma_access_count_nonneg(purchases, model);
    if reviews.len() > 0 {
        let rest = reviews.drop_last();
        let r = reviews.last();
        assert forall|i: int, k: int|
            0 <= i < rest.len() && 0 <= k < rest.len() && i != k implies !((#[trigger] rest[i]).model
                == (#[trigger] rest[k]).model && rest[i].reviewer == rest[k].reviewer) by {
            assert(rest[i] == reviews[i]);
            assert(rest[k] == reviews[k]);
        }
        if r.model == model {
            assert(reviews[reviews.len() - 1] == r);
            let j = choose|j: int|
                0 <= j < purchases.len() && (#[trigger] purchases[j]).model == model && purchases[j].buyer
                    == r.reviewer && purchases[j].has_access;
            let ps = purchases.remove(j);
            assert forall|i: int| 0 <= i < rest.len() && (#[trigger] rest[i]).model == model implies access_granted(
                ps,
                model,
                rest[i].reviewer,
            ) by {
                assert(rest[i] == reviews[i]);
                assert(reviews[i].reviewer != r.reviewer);
                let k = choose|k: int|
                    0 <= k < purchases.len() && (#[trigger] purchases[k]).model == model && purchases[k].buyer
                        == rest[i].reviewer && purchases[k].has_access;
                if k < j {
                    assert(ps[k] == purchases[k]);
                } else {
                    assert(ps[k - 1] == purchases[k]);
                }
            }
            lemma_review_count_bounded(rest, ps, model);
            lemma_access_count_remove(purchases, j, model);
        } else {
            assert forall|i: int| 0 <= i < rest.len() && (#[trigger] rest[i]).model == model implies access_granted(
                purchases,
                model,
                rest[i].reviewer,
            ) by {
                assert(rest[i] == reviews[i]);
            }
            lemma_review_count_bounded(rest, purchases, model);
        }
    }
}

/// A listing never has more ratings than there are purchases granting
/// access to it: where its rating count is the number of its reviews, each
/// buyer reviews a model at most once, and every review is backed by a
/// purchase, the count is at most the purchases of the model with access.
pub proof fn lemma_ratings_within_purchases(
    listing: ModelListing,
    model: Address,
    purchases: Seq<PurchaseRecord>,
    reviews: Seq<ModelReview>,
)
    requires
        listing.rating_count == review_count(reviews, model),
        reviews_unique(reviews),
        reviews_backed(reviews, purchases),
    ensures
        listing.rating_count <= access_count(purchases, model),
{
    assert forall|i: int| 0 <= i < reviews.len() && (#[trigger] reviews[i]).model == model implies access_granted(
        purchases,
        model,
        reviews[i].reviewer,
    ) by {}
    lemma_review_count_bounded(reviews, purchases, model);
}

/// A new purchase takes no access away: reviews backed before it are
/// backed after it.
pub proof fn lemma_purchase_keeps_reviews_backed(
    reviews: Seq<ModelReview>,
    purchases: Seq<PurchaseRecord>,
    record: PurchaseRecord,
)
    requires
        reviews_backed(reviews, purchases),
    ensures
        reviews_backed(reviews, purchases.push(record)),
{
    let ps = purchases.push(record);
    assert forall|i: int| 0 <= i < reviews.len() implies access_granted(
        ps,
        (#[trigger] reviews[i]).model,
        reviews[i].reviewer,
    ) by {
        let k = choose|k: int|
            0 <= k < purchases.len() && (#[trigger] purchases[k]).model == reviews[i].model && purchases[k].buyer
                == reviews[i].reviewer && purchases[k].has_access;
        assert(ps[k] == purchases[k]);
    }
}

} // verus!
