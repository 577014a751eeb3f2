//! What holds of the marketplace across its messages: every sale pays out
//! exactly its price, the escrow the marketplace holds always balances what
//! came in against what went out, and taking back a bid undoes placing it.
use vstd::prelude::*;

use crate::decimal::{ratio, Decimal, DECIMAL_FRACTIONAL};
use crate::model::{
    accept_bid_step, accept_collection_bid_step, add_collection_step, ask_is, bid_is, bid_on,
    bid_step, collection_bid_is, collection_is, collection_refund, execute_step, first_match,
    lemma_first_match_some, member_share, not_bid_on, portion_sum, refund, refunds,
    remove_bid_step, remove_collection_bid_step, royalty_amount, royalty_payments, sale,
    seller_amount, shares_total, split_overflows, token_address_is, valid_royalty, withdraw_step,
    MarketModel,
};
use crate::settle::lemma_share_nonneg;
use crate::sums::{
    lemma_filter_remove_unselected, lemma_sum_concat, lemma_sum_ext, lemma_sum_filter_split,
    lemma_sum_map, lemma_sum_push, lemma_sum_remove, sum_of,
};
use crate::types::{
    Ask, Asset, Bid, Collection, CollectionBid, ExecuteMsg, MessageInfo, Payment, SaleType, UserInfo,
};

verus! {

/// Whether an amount in `asset` (with cw20 contract `token_address`, or
/// none for a native coin) is in the currency `denom` / `token`.
pub open spec fn in_currency(asset: Asset, token_address: Option<String>, denom: Seq<char>, token: Option<Seq<char>>) -> bool {
    &&& asset.denom@ == denom
    &&& match (token_address, token) {
        (None, None) => true,
        (Some(a), Some(t)) => a@ == t,
        _ => false,
    }
}

/// How much of the currency a bid holds in escrow.
pub open spec fn bid_value(denom: Seq<char>, token: Option<Seq<char>>) -> spec_fn(Bid) -> int {
    |b: Bid| if in_currency(b.price, b.token_address, denom, token) { b.price.amount as int } else { 0 }
}

/// How much of the currency a collection bid holds in escrow.
pub open spec fn collection_bid_value(denom: Seq<char>, token: Option<Seq<char>>) -> spec_fn(CollectionBid) -> int {
    |b: CollectionBid| if in_currency(b.price, b.token_address, denom, token) { b.price.amount as int } else { 0 }
}

/// How much of the currency a payment pays out.
pub open spec fn payment_value(denom: Seq<char>, token: Option<Seq<char>>) -> spec_fn(Payment) -> int {
    |p: Payment| match p {
        Payment::Funds { asset, token_address, .. } => if in_currency(asset, token_address, denom, token) {
            asset.amount as int
        } else {
            0
        },
        Payment::Nft { .. } => 0,
    }
}

/// How much of the currency the payments pay out together.
pub open spec fn paid(payments: Seq<Payment>, denom: Seq<char>, token: Option<Seq<char>>) -> int {
    sum_of(payments, payment_value(denom, token))
}

/// How much of the currency the marketplace holds in escrow for bids.
pub open spec fn escrowed(m: MarketModel, denom: Seq<char>, token: Option<Seq<char>>) -> int {
    sum_of(m.bids, bid_value(denom, token)) + sum_of(m.collection_bids, collection_bid_value(denom, token))
}

pub proof fn lemma_shares_total_sum(royalty: int, members: Seq<UserInfo>)
    ensures
        shares_total(royalty, members) == sum_of(members, |u: UserInfo| member_share(royalty, u)),
    decreases members.len(),
{
    if members.len() > 0 {
        lemma_shares_total_sum(royalty, members.drop_last());
    }
}

proof fn lemma_shares_nonneg(royalty: int, members: Seq<UserInfo>)
    requires
        royalty >= 0,
    ensures
        shares_total(royalty, members) >= 0,
    decreases members.len(),
{
    if members.len() > 0 {
        lemma_shares_nonneg(royalty, members.drop_last());
        lemma_share_nonneg(royalty, members.last());
    }
}

/// What refunding bids pays out is what they held in escrow.
pub proof fn lemma_refunds_paid(bids: Seq<Bid>, denom: Seq<char>, token: Option<Seq<char>>)
    ensures
        paid(refunds(bids), denom, token) == sum_of(bids, bid_value(denom, token)),
{
    let f = payment_value(denom, token);
    let g = |b: Bid| refund(b);
    assert(refunds(bids) =~= bids.map_values(g));
    lemma_sum_map(bids, g, f);
    lemma_sum_ext(bids, |x: Bid| f(g(x)), bid_value(denom, token));
}

/// A sale's payments to the royalty members and the seller add up to
/// exactly the sale's price, in its currency: no more is paid out than the
/// buyer paid, and nothing is left over.
pub proof fn law_sale_pays_price(collection: Collection, price: Asset, token_address: Option<String>, seller: String)
    requires
        !split_overflows(price.amount, collection),
    ensures
        ({
            let proceeds = royalty_payments(collection, price, token_address)
                + seq![Payment::Funds {
                    recipient: seller,
                    asset: Asset { denom: price.denom, amount: seller_amount(collection, price.amount) as u128 },
                    token_address,
                }];
            forall|denom: Seq<char>, token: Option<Seq<char>>|
                #[trigger] paid(proceeds, denom, token) == if in_currency(price, token_address, denom, token) {
                    price.amount as int
                } else {
                    0
                }
        }),
{
    let royalty = royalty_amount(price.amount, collection.royalty_portion);
    let members = collection.members@;
    let seller_pay = Payment::Funds {
        recipient: seller,
        asset: Asset { denom: price.denom, amount: seller_amount(collection, price.amount) as u128 },
        token_address,
    };
    let proceeds = royalty_payments(collection, price, token_address) + seq![seller_pay];
    assert(royalty >= 0) by {
        let a = collection.royalty_portion.atomics as int;
        let p = price.amount as int;
        assert(p * a >= 0) by (nonlinear_arith)
            requires
                p >= 0,
                a >= 0,
        ;
    }
    lemma_shares_nonneg(royalty, members);
    assert forall|denom: Seq<char>, token: Option<Seq<char>>|
        #[trigger] paid(proceeds, denom, token) == if in_currency(price, token_address, denom, token) {
            price.amount as int
        } else {
            0
        } by {
        let f = payment_value(denom, token);
        let pay_of = |u: UserInfo| Payment::Funds {
            recipient: u.address,
            asset: Asset { denom: price.denom, amount: member_share(royalty, u) as u128 },
            token_address,
        };
        assert(royalty_payments(collection, price, token_address) == members.map_values(pay_of));
        lemma_sum_map(members, pay_of, f);
        let matches = in_currency(price, token_address, denom, token);
        let share_of = |u: UserInfo| if matches { member_share(royalty, u) } else { 0 };
        assert forall|i: int| 0 <= i < members.len() implies (|u: UserInfo| f(pay_of(u)))(#[trigger] members[i])
            == share_of(members[i]) by {
            lemma_share_nonneg(royalty, members[i]);
        }
        lemma_sum_ext(members, |u: UserInfo| f(pay_of(u)), share_of);
        lemma_shares_total_sum(royalty, members);
        if !matches {
            assert forall|i: int| 0 <= i < members.len() implies share_of(#[trigger] members[i]) == (|u: UserInfo| 0int)(members[i]) by {}
            lemma_sum_ext(members, share_of, |u: UserInfo| 0int);
            lemma_sum_zero(members);
        } else {
            lemma_sum_ext(members, share_of, |u: UserInfo| member_share(royalty, u));
        }
        lemma_sum_concat(royalty_payments(collection, price, token_address), seq![seller_pay], f);
        assert(seq![seller_pay] =~= Seq::<Payment>::empty().push(seller_pay));
        lemma_sum_push(Seq::<Payment>::empty(), seller_pay, f);
    }
}

proof fn lemma_sum_zero<A>(s: Seq<A>)
    ensures
        sum_of(s, |x: A| 0int) == 0,
    decreases s.len(),
{
    if s.len() > 0 {
        lemma_sum_zero(s.drop_last());
    }
}


/// What a message deposits into escrow in the currency: the coins offered
/// with a coin bid, or the tokens a cw20 contract reports for a token bid.
pub open spec fn deposited(m: MarketModel, info: MessageInfo, msg: ExecuteMsg, denom: Seq<char>, token: Option<Seq<char>>) -> int {
    match msg {
        ExecuteMsg::SetBidCoin { list_price, .. } => if in_currency(list_price, None, denom, token) {
            list_price.amount as int
        } else {
            0
        },
        ExecuteMsg::Receive(r) => match first_match(m.tokens, token_address_is(info.sender@)) {
            Some(k) => if in_currency(Asset { denom: m.tokens[k].symbol, amount: r.amount }, Some(info.sender), denom, token) {
                r.amount as int
            } else {
                0
            },
            None => 0,
        },
        _ => 0,
    }
}

proof fn lemma_single_paid(p: Payment, denom: Seq<char>, token: Option<Seq<char>>)
    ensures
        paid(seq![p], denom, token) == payment_value(denom, token)(p),
{
    assert(seq![p] =~= Seq::<Payment>::empty().push(p));
    lemma_sum_push(Seq::<Payment>::empty(), p, payment_value(denom, token));
}

/// The bids on a token and the others together hold all the escrow.
proof fn lemma_bids_split(bids: Seq<Bid>, c: Seq<char>, t: Seq<char>, denom: Seq<char>, token: Option<Seq<char>>)
    ensures
        sum_of(bids, bid_value(denom, token)) == sum_of(bids.filter(bid_on(c, t)), bid_value(denom, token))
            + sum_of(bids.filter(not_bid_on(c, t)), bid_value(denom, token)),
{
    let p = bid_on(c, t);
    lemma_sum_filter_split(bids, p, bid_value(denom, token));
    assert(not_bid_on(c, t) =~= (|x: Bid| !p(x)));
}

/// A completed sale pays out the refunded bids' escrow and the price, and
/// leaves the other bids and the collection bids as they were.
proof fn lemma_sale_balance(
    m: MarketModel,
    i: int,
    buyer: String,
    price: Asset,
    token_address: Option<String>,
    refunded: Seq<Bid>,
    now: u64,
    denom: Seq<char>,
    token: Option<Seq<char>>,
)
    requires
        0 <= i < m.asks.len(),
        sale(m, i, buyer, price, token_address, refunded, now) is Ok,
    ensures
        ({
            let (m2, payments) = sale(m, i, buyer, price, token_address, refunded, now)->Ok_0;
            &&& paid(payments, denom, token) == sum_of(refunded, bid_value(denom, token))
                + if in_currency(price, token_address, denom, token) { price.amount as int } else { 0 }
            &&& m2.bids == m.bids.filter(not_bid_on(m.asks[i].collection@, m.asks[i].token_id@))
            &&& m2.collection_bids == m.collection_bids
        }),
{
    let ask = m.asks[i];
    let ci = first_match(m.collections, collection_is(ask.collection@))->0;
    let collection = m.collections[ci];
    let f = payment_value(denom, token);
    let seller_pay = Payment::Funds {
        recipient: ask.seller,
        asset: Asset { denom: price.denom, amount: seller_amount(collection, price.amount) as u128 },
        token_address,
    };
    let nft = Payment::Nft { collection: ask.collection, recipient: buyer, token_id: ask.token_id };
    let proceeds = royalty_payments(collection, price, token_address) + seq![seller_pay];
    law_sale_pays_price(collection, price, token_address, ask.seller);
    assert(paid(proceeds, denom, token) == if in_currency(price, token_address, denom, token) {
        price.amount as int
    } else {
        0
    });
    let payments = sale(m, i, buyer, price, token_address, refunded, now)->Ok_0.1;
    assert(payments =~= (refunds(refunded) + proceeds) + seq![nft]);
    lemma_sum_concat(refunds(refunded) + proceeds, seq![nft], f);
    lemma_sum_concat(refunds(refunded), proceeds, f);
    lemma_single_paid(nft, denom, token);
    lemma_refunds_paid(refunded, denom, token);
}

/// Placing an offer adds the offer to the escrow, or (for a fixed-price
/// purchase) pays out the price and the refunded bids' escrow.
proof fn lemma_bid_balance(
    m: MarketModel,
    now: u64,
    bidder: String,
    nft_address: String,
    expire: u64,
    sale_type: SaleType,
    token_id: Option<String>,
    price: Asset,
    token_address: Option<String>,
    denom: Seq<char>,
    token: Option<Seq<char>>,
)
    requires
        bid_step(m, now, bidder, nft_address, expire, sale_type, token_id, price, token_address) is Ok,
    ensures
        ({
            let (m2, payments) = bid_step(m, now, bidder, nft_address, expire, sale_type, token_id, price, token_address)->Ok_0;
            escrowed(m2, denom, token) + paid(payments, denom, token) == escrowed(m, denom, token)
                + if in_currency(price, token_address, denom, token) { price.amount as int } else { 0 }
        }),
{
    let (m2, payments) = bid_step(m, now, bidder, nft_address, expire, sale_type, token_id, price, token_address)->Ok_0;
    let bv = bid_value(denom, token);
    let cv = collection_bid_value(denom, token);
    match sale_type {
        SaleType::CollectionBid => {
            let b = CollectionBid { collection: nft_address, bidder, price, token_address, expires_at: expire };
            lemma_sum_push(m.collection_bids, b, cv);
            assert(payments =~= Seq::<Payment>::empty());
        },
        _ => {
            let tid = token_id->0;
            let i = first_match(m.asks, crate::model::ask_is(nft_address@, tid@))->0;
            lemma_first_match_some(m.asks, crate::model::ask_is(nft_address@, tid@));
            if sale_type is Auction {
                let b = Bid {
                    collection: nft_address,
                    token_id: tid,
                    bidder,
                    seller: m.asks[i].seller,
                    price,
                    token_address,
                    expires_at: expire,
                };
                lemma_sum_push(m.bids, b, bv);
                assert(payments =~= Seq::<Payment>::empty());
            } else {
                let refunded = m.bids.filter(bid_on(nft_address@, tid@));
                lemma_sale_balance(m, i, bidder, price, token_address, refunded, now, denom, token);
                lemma_bids_split(m.bids, nft_address@, tid@, denom, token);
            }
        },
    }
}

/// The escrow balances: for every message handled, what the marketplace
/// holds in escrow afterwards plus what it pays out equals what it held
/// before plus what the message deposited, in every currency. The
/// marketplace never pays out funds it was not given, and never keeps a
/// bid's funds once the bid is gone.
pub proof fn law_escrow_balance(
    m: MarketModel,
    now: u64,
    info: MessageInfo,
    msg: ExecuteMsg,
    denom: Seq<char>,
    token: Option<Seq<char>>,
)
    requires
        execute_step(m, now, info, msg) is Ok,
    ensures
        ({
            let (m2, payments) = execute_step(m, now, info, msg)->Ok_0;
            escrowed(m2, denom, token) + paid(payments, denom, token) == escrowed(m, denom, token)
                + deposited(m, info, msg, denom, token)
        }),
{
    let (m2, payments) = execute_step(m, now, info, msg)->Ok_0;
    let bv = bid_value(denom, token);
    let cv = collection_bid_value(denom, token);
    match msg {
        ExecuteMsg::AddCollection { .. } => {
            assert(payments =~= Seq::<Payment>::empty());
        },
        ExecuteMsg::AddCoin { .. } => {
            assert(payments =~= Seq::<Payment>::empty());
        },
        ExecuteMsg::AddTokenAddress { .. } => {
            assert(payments =~= Seq::<Payment>::empty());
        },
        ExecuteMsg::ReceiveNft(_) => {
            assert(payments =~= Seq::<Payment>::empty());
        },
        ExecuteMsg::Receive(r) => {
            let k = first_match(m.tokens, token_address_is(info.sender@))->0;
            lemma_bid_balance(
                m,
                now,
                r.sender,
                r.msg.nft_address,
                r.msg.expire,
                r.msg.sale_type,
                r.msg.token_id,
                Asset { denom: m.tokens[k].symbol, amount: r.amount },
                Some(info.sender),
                denom,
                token,
            );
        },
        ExecuteMsg::SetBidCoin { nft_address, expire, sale_type, token_id, list_price } => {
            lemma_bid_balance(m, now, info.sender, nft_address, expire, sale_type, token_id, list_price, None, denom, token);
        },
        ExecuteMsg::RemoveBid { nft_address, token_id } => {
            let j = first_match(m.bids, bid_is(nft_address@, token_id@, info.sender@))->0;
            lemma_first_match_some(m.bids, bid_is(nft_address@, token_id@, info.sender@));
            lemma_sum_remove(m.bids, j, bv);
            lemma_single_paid(refund(m.bids[j]), denom, token);
        },
        ExecuteMsg::RemoveCollectionBid { nft_address } => {
            let j = first_match(m.collection_bids, collection_bid_is(nft_address@, info.sender@))->0;
            lemma_first_match_some(m.collection_bids, collection_bid_is(nft_address@, info.sender@));
            lemma_sum_remove(m.collection_bids, j, cv);
            lemma_single_paid(collection_refund(m.collection_bids[j]), denom, token);
        },
        ExecuteMsg::WithdrawNft { nft_address, token_id } => {
            let i = first_match(m.asks, crate::model::ask_is(nft_address@, token_id@))->0;
            let ask = m.asks[i];
            let nft = Payment::Nft { collection: ask.collection, recipient: ask.seller, token_id: ask.token_id };
            let refunded = m.bids.filter(bid_on(nft_address@, token_id@));
            lemma_sum_concat(refunds(refunded), seq![nft], payment_value(denom, token));
            lemma_single_paid(nft, denom, token);
            lemma_refunds_paid(refunded, denom, token);
            lemma_bids_split(m.bids, nft_address@, token_id@, denom, token);
        },
        ExecuteMsg::AcceptBid { nft_address, token_id, bidder } => {
            let i = first_match(m.asks, crate::model::ask_is(nft_address@, token_id@))->0;
            lemma_first_match_some(m.asks, crate::model::ask_is(nft_address@, token_id@));
            let p = bid_is(nft_address@, token_id@, bidder@);
            let j = first_match(m.bids, p)->0;
            lemma_first_match_some(m.bids, p);
            let b = m.bids[j];
            let rest = m.bids.remove(j);
            let refunded = rest.filter(bid_on(nft_address@, token_id@));
            lemma_sale_balance(m, i, b.bidder, b.price, b.token_address, refunded, now, denom, token);
            lemma_bids_split(m.bids, nft_address@, token_id@, denom, token);
            lemma_bids_split(rest, nft_address@, token_id@, denom, token);
            lemma_filter_remove_unselected(m.bids, j, not_bid_on(nft_address@, token_id@));
            lemma_sum_remove(m.bids, j, bv);
        },
        ExecuteMsg::AcceptCollectionBid { nft_address, token_id, bidder } => {
            let i = first_match(m.asks, crate::model::ask_is(nft_address@, token_id@))->0;
            lemma_first_match_some(m.asks, crate::model::ask_is(nft_address@, token_id@));
            let q = collection_bid_is(nft_address@, bidder@);
            let k = first_match(m.collection_bids, q)->0;
            lemma_first_match_some(m.collection_bids, q);
            let b = m.collection_bids[k];
            let refunded = m.bids.filter(bid_on(nft_address@, token_id@));
            lemma_sale_balance(m, i, b.bidder, b.price, b.token_address, refunded, now, denom, token);
            lemma_bids_split(m.bids, nft_address@, token_id@, denom, token);
            lemma_sum_remove(m.collection_bids, k, cv);
        },
    }
}


proof fn lemma_filter_excludes(bids: Seq<Bid>, c: Seq<char>, t: Seq<char>)
    ensures
        forall|k: int| 0 <= k < bids.filter(not_bid_on(c, t)).len() ==> !bid_on(c, t)(#[trigger] bids.filter(not_bid_on(c, t))[k]),
{
    #[allow(deprecated)]
    bids.filter_lemma(not_bid_on(c, t));
}

/// Once a seller takes back a token, no bid on it remains.
pub proof fn law_withdraw_leaves_no_bids(m: MarketModel, sender: String, collection: String, token_id: String)
    requires
        withdraw_step(m, sender, collection, token_id) is Ok,
    ensures
        ({
            let m2 = withdraw_step(m, sender, collection, token_id)->Ok_0.0;
            forall|k: int| 0 <= k < m2.bids.len() ==> !bid_on(collection@, token_id@)(#[trigger] m2.bids[k])
        }),
{
    lemma_filter_excludes(m.bids, collection@, token_id@);
}

/// Once a token is sold to a bidder, no bid on it remains.
pub proof fn law_accept_leaves_no_bids(m: MarketModel, now: u64, sender: String, collection: String, token_id: String, bidder: String)
    ensures
        accept_bid_step(m, now, sender, collection, token_id, bidder) is Ok ==> ({
            let m2 = accept_bid_step(m, now, sender, collection, token_id, bidder)->Ok_0.0;
            forall|k: int| 0 <= k < m2.bids.len() ==> !bid_on(collection@, token_id@)(#[trigger] m2.bids[k])
        }),
        accept_collection_bid_step(m, now, sender, collection, token_id, bidder) is Ok ==> ({
            let m2 = accept_collection_bid_step(m, now, sender, collection, token_id, bidder)->Ok_0.0;
            forall|k: int| 0 <= k < m2.bids.len() ==> !bid_on(collection@, token_id@)(#[trigger] m2.bids[k])
        }),
{
    if first_match(m.asks, ask_is(collection@, token_id@)) is Some {
        lemma_first_match_some(m.asks, ask_is(collection@, token_id@));
    }
    lemma_filter_excludes(m.bids, collection@, token_id@);
}

/// Taking back an auction bid undoes placing it: the marketplace returns to
/// the state before the bid and refunds exactly the offered price.
pub proof fn law_remove_bid_undoes_bid(
    m: MarketModel,
    now: u64,
    bidder: String,
    nft_address: String,
    expire: u64,
    token_id: String,
    price: Asset,
    token_address: Option<String>,
)
    requires
        bid_step(m, now, bidder, nft_address, expire, SaleType::Auction, Some(token_id), price, token_address) is Ok,
    ensures
        ({
            let (m2, payments) = bid_step(m, now, bidder, nft_address, expire, SaleType::Auction, Some(token_id), price, token_address)->Ok_0;
            &&& payments == Seq::<Payment>::empty()
            &&& remove_bid_step(m2, bidder, nft_address, token_id) == Ok::<(MarketModel, Seq<Payment>), crate::types::ContractError>((
                m,
                seq![Payment::Funds { recipient: bidder, asset: price, token_address }],
            ))
        }),
{
    let (m2, payments) = bid_step(m, now, bidder, nft_address, expire, SaleType::Auction, Some(token_id), price, token_address)->Ok_0;
    let p = bid_is(nft_address@, token_id@, bidder@);
    let n = m.bids.len() as int;
    assert(forall|j: int| 0 <= j < n ==> !p(m.bids[j]));
    assert(forall|j: int| 0 <= j < n ==> !p(#[trigger] m2.bids[j]));
    crate::model::lemma_first_match_at(m2.bids, p, n);
    assert(m2.bids.remove(n) =~= m.bids);
    let back = MarketModel { bids: m2.bids.remove(n), ..m2 };
    assert(back =~= m);
    assert(payments =~= Seq::<Payment>::empty());
}

/// Taking back a collection bid undoes placing it.
pub proof fn law_remove_collection_bid_undoes_bid(
    m: MarketModel,
    now: u64,
    bidder: String,
    nft_address: String,
    expire: u64,
    token_id: Option<String>,
    price: Asset,
    token_address: Option<String>,
)
    requires
        bid_step(m, now, bidder, nft_address, expire, SaleType::CollectionBid, token_id, price, token_address) is Ok,
    ensures
        ({
            let (m2, payments) = bid_step(m, now, bidder, nft_address, expire, SaleType::CollectionBid, token_id, price, token_address)->Ok_0;
            &&& payments == Seq::<Payment>::empty()
            &&& remove_collection_bid_step(m2, bidder, nft_address) == Ok::<(MarketModel, Seq<Payment>), crate::types::ContractError>((
                m,
                seq![Payment::Funds { recipient: bidder, asset: price, token_address }],
            ))
        }),
{
    let (m2, payments) = bid_step(m, now, bidder, nft_address, expire, SaleType::CollectionBid, token_id, price, token_address)->Ok_0;
    let p = collection_bid_is(nft_address@, bidder@);
    let n = m.collection_bids.len() as int;
    assert(forall|j: int| 0 <= j < n ==> !p(m.collection_bids[j]));
    assert(forall|j: int| 0 <= j < n ==> !p(#[trigger] m2.collection_bids[j]));
    crate::model::lemma_first_match_at(m2.collection_bids, p, n);
    assert(m2.collection_bids.remove(n) =~= m.collection_bids);
    let back = MarketModel { collection_bids: m2.collection_bids.remove(n), ..m2 };
    assert(back =~= m);
    assert(payments =~= Seq::<Payment>::empty());
}

/// Every registered collection's royalty rule is valid.
pub open spec fn royalties_valid(m: MarketModel) -> bool {
    forall|i: int| 0 <= i < m.collections.len() ==> valid_royalty(
        #[trigger] m.collections[i].royalty_portion,
        m.collections[i].members@,
    )
}

/// The managers, the registered collections and the accepted currencies
/// are the same in both states.
pub open spec fn settings_unchanged(m: MarketModel, m2: MarketModel) -> bool {
    &&& m2.owner == m.owner
    &&& m2.admin == m.admin
    &&& m2.collections == m.collections
    &&& m2.coins == m.coins
    &&& m2.tokens == m.tokens
}

proof fn lemma_sale_keeps_collections(
    m: MarketModel,
    i: int,
    buyer: String,
    price: Asset,
    token_address: Option<String>,
    refunded: Seq<Bid>,
    now: u64,
)
    requires
        sale(m, i, buyer, price, token_address, refunded, now) is Ok,
    ensures
        settings_unchanged(m, sale(m, i, buyer, price, token_address, refunded, now)->Ok_0.0),
{
}

proof fn lemma_bid_keeps_collections(
    m: MarketModel,
    now: u64,
    bidder: String,
    nft_address: String,
    expire: u64,
    sale_type: SaleType,
    token_id: Option<String>,
    price: Asset,
    token_address: Option<String>,
)
    requires
        bid_step(m, now, bidder, nft_address, expire, sale_type, token_id, price, token_address) is Ok,
    ensures
        settings_unchanged(m, bid_step(m, now, bidder, nft_address, expire, sale_type, token_id, price, token_address)->Ok_0.0),
{
    match sale_type {
        SaleType::CollectionBid => {},
        SaleType::Auction => {},
        SaleType::FixedPrice => {
            let tid = token_id->0;
            let i = first_match(m.asks, ask_is(nft_address@, tid@))->0;
            lemma_sale_keeps_collections(m, i, bidder, price, token_address, m.bids.filter(bid_on(nft_address@, tid@)), now);
        },
    }
}

proof fn lemma_add_collection_valid(
    m: MarketModel,
    sender: String,
    royalty_portion: Decimal,
    nft_address: String,
    members: Vec<UserInfo>,
)
    requires
        royalties_valid(m),
        add_collection_step(m, sender, royalty_portion, nft_address, members) is Ok,
    ensures
        royalties_valid(add_collection_step(m, sender, royalty_portion, nft_address, members)->Ok_0.0),
{
    let m2 = add_collection_step(m, sender, royalty_portion, nft_address, members)->Ok_0.0;
    if first_match(m.collections, collection_is(nft_address@)) is Some {
        lemma_first_match_some(m.collections, collection_is(nft_address@));
    }
    assert forall|i: int| 0 <= i < m2.collections.len() implies valid_royalty(
        #[trigger] m2.collections[i].royalty_portion,
        m2.collections[i].members@,
    ) by {
        match first_match(m.collections, collection_is(nft_address@)) {
            Some(k) => {
                if i != k {
                    assert(m2.collections[i] == m.collections[i]);
                }
            },
            None => {
                if i < m.collections.len() {
                    assert(m2.collections[i] == m.collections[i]);
                }
            },
        }
    }
}

/// Every handled message keeps every registered royalty rule valid.
#[verifier::rlimit(50)]
pub proof fn law_royalties_stay_valid(m: MarketModel, now: u64, info: MessageInfo, msg: ExecuteMsg)
    requires
        royalties_valid(m),
        execute_step(m, now, info, msg) is Ok,
    ensures
        royalties_valid(execute_step(m, now, info, msg)->Ok_0.0),
{
    let m2 = execute_step(m, now, info, msg)->Ok_0.0;
    match msg {
        ExecuteMsg::AddCollection { royalty_portion, nft_address, members } => {
            lemma_add_collection_valid(m, info.sender, royalty_portion, nft_address, members);
        },
        ExecuteMsg::Receive(r) => {
            let k = first_match(m.tokens, token_address_is(info.sender@))->0;
            lemma_bid_keeps_collections(
                m,
                now,
                r.sender,
                r.msg.nft_address,
                r.msg.expire,
                r.msg.sale_type,
                r.msg.token_id,
                Asset { denom: m.tokens[k].symbol, amount: r.amount },
                Some(info.sender),
            );
        },
        ExecuteMsg::SetBidCoin { nft_address, expire, sale_type, token_id, list_price } => {
            lemma_bid_keeps_collections(m, now, info.sender, nft_address, expire, sale_type, token_id, list_price, None);
        },
        ExecuteMsg::AcceptBid { nft_address, token_id, bidder } => {
            let i = first_match(m.asks, ask_is(nft_address@, token_id@))->0;
            let j = first_match(m.bids, bid_is(nft_address@, token_id@, bidder@))->0;
            let b = m.bids[j];
            lemma_sale_keeps_collections(m, i, b.bidder, b.price, b.token_address, m.bids.remove(j).filter(bid_on(nft_address@, token_id@)), now);
        },
        ExecuteMsg::AcceptCollectionBid { nft_address, token_id, bidder } => {
            let i = first_match(m.asks, ask_is(nft_address@, token_id@))->0;
            let k = first_match(m.collection_bids, collection_bid_is(nft_address@, bidder@))->0;
            let b = m.collection_bids[k];
            lemma_sale_keeps_collections(m, i, b.bidder, b.price, b.token_address, m.bids.filter(bid_on(nft_address@, token_id@)), now);
        },
        ExecuteMsg::AddCoin { .. } => {},
        ExecuteMsg::AddTokenAddress { .. } => {},
        ExecuteMsg::ReceiveNft(_) => {},
        ExecuteMsg::RemoveBid { .. } => {},
        ExecuteMsg::RemoveCollectionBid { .. } => {},
        ExecuteMsg::WithdrawNft { .. } => {},
    }
}

proof fn lemma_ratio_le(x: int, a: int, d: int)
    requires
        x >= 0,
        0 <= a <= d,
        d > 0,
    ensures
        0 <= ratio(x, a, d) <= x,
{
    assert(0 <= x * a <= x * d) by (nonlinear_arith)
        requires
            x >= 0,
            0 <= a <= d,
    ;
    assert((x * a) / d <= (x * d) / d) by (nonlinear_arith)
        requires
            x * a <= x * d,
            d > 0,
    ;
    assert((x * d) / d == x) by (nonlinear_arith)
        requires
            d > 0,
    ;
    assert(0 <= (x * a) / d) by (nonlinear_arith)
        requires
            x * a >= 0,
            d > 0,
    ;
}

proof fn lemma_floor_add(x: int, y: int, d: int)
    requires
        x >= 0,
        y >= 0,
        d > 0,
    ensures
        x / d + y / d <= (x + y) / d,
{
    assert(x / d + y / d <= (x + y) / d) by (nonlinear_arith)
        requires
            x >= 0,
            y >= 0,
            d > 0,
    ;
}

proof fn lemma_shares_bounded(royalty: int, members: Seq<UserInfo>)
    requires
        royalty >= 0,
    ensures
        shares_total(royalty, members) <= ratio(royalty, portion_sum(members), DECIMAL_FRACTIONAL as int),
        portion_sum(members) >= 0,
    decreases members.len(),
{
    if members.len() > 0 {
        let rest = members.drop_last();
        let q = members.last().portion.atomics as int;
        let p = portion_sum(rest);
        lemma_shares_bounded(royalty, rest);
        let d = DECIMAL_FRACTIONAL as int;
        assert(royalty * p >= 0 && royalty * q >= 0) by (nonlinear_arith)
            requires
                royalty >= 0,
                p >= 0,
                q >= 0,
        ;
        lemma_floor_add(royalty * p, royalty * q, d);
        assert(royalty * p + royalty * q == royalty * (p + q)) by (nonlinear_arith);
    }
}

proof fn lemma_portion_le_sum(members: Seq<UserInfo>, i: int)
    requires
        0 <= i < members.len(),
    ensures
        members[i].portion.atomics <= portion_sum(members),
    decreases members.len(),
{
    if i < members.len() - 1 {
        lemma_portion_le_sum(members.drop_last(), i);
        lemma_shares_bounded(0, members.drop_last());
    } else {
        lemma_shares_bounded(0, members.drop_last());
    }
}

/// Under a valid royalty rule, splitting any price never overflows and the
/// shares never exceed the price: a sale in a registered collection always
/// settles.
pub proof fn law_valid_royalty_settles(price: u128, collection: Collection)
    requires
        valid_royalty(collection.royalty_portion, collection.members@),
    ensures
        !split_overflows(price, collection),
{
    let d = DECIMAL_FRACTIONAL as int;
    let members = collection.members@;
    let royalty = royalty_amount(price, collection.royalty_portion);
    lemma_ratio_le(price as int, collection.royalty_portion.atomics as int, d);
    assert forall|i: int| 0 <= i < members.len() implies member_share(royalty, #[trigger] members[i]) <= u128::MAX by {
        lemma_portion_le_sum(members, i);
        lemma_ratio_le(royalty, members[i].portion.atomics as int, d);
    }
    lemma_shares_bounded(royalty, members);
    lemma_ratio_le(royalty, portion_sum(members), d);
}


/// A new marketplace has no royalty rules, so all of them are valid.
pub proof fn law_new_market_royalties_valid(owner: String, admin: String)
    ensures
        royalties_valid(crate::model::instantiated(owner, admin)),
{
}

/// No two elements of `s` are the same by `same`.
pub open spec fn distinct_by<A>(s: Seq<A>, same: spec_fn(A, A) -> bool) -> bool {
    forall|i: int, j: int| 0 <= i < j < s.len() ==> !same(#[trigger] s[i], #[trigger] s[j])
}

pub open spec fn same_ask() -> spec_fn(Ask, Ask) -> bool {
    |a: Ask, b: Ask| a.collection@ == b.collection@ && a.token_id@ == b.token_id@
}

pub open spec fn same_bid() -> spec_fn(Bid, Bid) -> bool {
    |a: Bid, b: Bid| a.collection@ == b.collection@ && a.token_id@ == b.token_id@ && a.bidder@ == b.bidder@
}

pub open spec fn same_collection_bid() -> spec_fn(CollectionBid, CollectionBid) -> bool {
    |a: CollectionBid, b: CollectionBid| a.collection@ == b.collection@ && a.bidder@ == b.bidder@
}

/// A token is listed at most once, a bidder bids at most once on a token,
/// and at most once on a collection.
pub open spec fn listings_unique(m: MarketModel) -> bool {
    &&& distinct_by(m.asks, same_ask())
    &&& distinct_by(m.bids, same_bid())
    &&& distinct_by(m.collection_bids, same_collection_bid())
}

proof fn lemma_distinct_push<A>(s: Seq<A>, x: A, same: spec_fn(A, A) -> bool)
    requires
        distinct_by(s, same),
        forall|k: int| 0 <= k < s.len() ==> !same(#[trigger] s[k], x),
    ensures
        distinct_by(s.push(x), same),
{
    assert forall|i: int, j: int| 0 <= i < j < s.push(x).len() implies !same(#[trigger] s.push(x)[i], #[trigger] s.push(x)[j]) by {
        if j == s.len() {
            assert(s.push(x)[i] == s[i]);
        } else {
            assert(s.push(x)[i] == s[i]);
            assert(s.push(x)[j] == s[j]);
        }
    }
}

proof fn lemma_distinct_remove<A>(s: Seq<A>, k: int, same: spec_fn(A, A) -> bool)
    requires
        distinct_by(s, same),
        0 <= k < s.len(),
    ensures
        distinct_by(s.remove(k), same),
{
    let r = s.remove(k);
    assert forall|i: int, j: int| 0 <= i < j < r.len() implies !same(#[trigger] r[i], #[trigger] r[j]) by {
        let i2 = if i < k { i } else { i + 1 };
        let j2 = if j < k { j } else { j + 1 };
        assert(r[i] == s[i2]);
        assert(r[j] == s[j2]);
    }
}

proof fn lemma_distinct_filter<A>(s: Seq<A>, p: spec_fn(A) -> bool, same: spec_fn(A, A) -> bool)
    requires
        distinct_by(s, same),
    ensures
        distinct_by(s.filter(p), same),
    decreases s.len(),
{
    reveal_with_fuel(Seq::filter, 1);
    if s.len() > 0 {
        let rest = s.drop_last();
        assert(distinct_by(rest, same)) by {
            assert forall|i: int, j: int| 0 <= i < j < rest.len() implies !same(#[trigger] rest[i], #[trigger] rest[j]) by {
                assert(rest[i] == s[i]);
                assert(rest[j] == s[j]);
            }
        }
        lemma_distinct_filter(rest, p, same);
        let f = rest.filter(p);
        if p(s.last()) {
            assert forall|k: int| 0 <= k < f.len() implies !same(#[trigger] f[k], s.last()) by {
                assert(f.contains(f[k]));
                rest.lemma_filter_contains_rev(p, f[k]);
                let k2 = choose|k2: int| 0 <= k2 < rest.len() && rest[k2] == f[k];
                assert(s[k2] == f[k]);
                assert(!same(s[k2], s[s.len() - 1]));
            }
            lemma_distinct_push(f, s.last(), same);
        }
    }
}

proof fn lemma_sale_unique(
    m: MarketModel,
    i: int,
    buyer: String,
    price: Asset,
    token_address: Option<String>,
    refunded: Seq<Bid>,
    now: u64,
)
    requires
        listings_unique(m),
        0 <= i < m.asks.len(),
        sale(m, i, buyer, price, token_address, refunded, now) is Ok,
    ensures
        listings_unique(sale(m, i, buyer, price, token_address, refunded, now)->Ok_0.0),
{
    let ask = m.asks[i];
    lemma_distinct_remove(m.asks, i, same_ask());
    lemma_distinct_filter(m.bids, not_bid_on(ask.collection@, ask.token_id@), same_bid());
}

proof fn lemma_bid_unique(
    m: MarketModel,
    now: u64,
    bidder: String,
    nft_address: String,
    expire: u64,
    sale_type: SaleType,
    token_id: Option<String>,
    price: Asset,
    token_address: Option<String>,
)
    requires
        listings_unique(m),
        bid_step(m, now, bidder, nft_address, expire, sale_type, token_id, price, token_address) is Ok,
    ensures
        listings_unique(bid_step(m, now, bidder, nft_address, expire, sale_type, token_id, price, token_address)->Ok_0.0),
{
    match sale_type {
        SaleType::CollectionBid => {
            let b = CollectionBid { collection: nft_address, bidder, price, token_address, expires_at: expire };
            let p = collection_bid_is(nft_address@, bidder@);
            assert(forall|k: int| 0 <= k < m.collection_bids.len() ==> !p(m.collection_bids[k]));
            lemma_distinct_push(m.collection_bids, b, same_collection_bid());
        },
        _ => {
            let tid = token_id->0;
            let i = first_match(m.asks, ask_is(nft_address@, tid@))->0;
            lemma_first_match_some(m.asks, ask_is(nft_address@, tid@));
            if sale_type is Auction {
                let b = Bid {
                    collection: nft_address,
                    token_id: tid,
                    bidder,
                    seller: m.asks[i].seller,
                    price,
                    token_address,
                    expires_at: expire,
                };
                let p = bid_is(nft_address@, tid@, bidder@);
                assert(forall|k: int| 0 <= k < m.bids.len() ==> !p(m.bids[k]));
                lemma_distinct_push(m.bids, b, same_bid());
            } else {
                lemma_sale_unique(m, i, bidder, price, token_address, m.bids.filter(bid_on(nft_address@, tid@)), now);
            }
        },
    }
}

/// Every handled message keeps every token listed at most once and every
/// bidder's bids on a token, or on a collection, at most one.
#[verifier::rlimit(50)]
pub proof fn law_listings_stay_unique(m: MarketModel, now: u64, info: MessageInfo, msg: ExecuteMsg)
    requires
        listings_unique(m),
        execute_step(m, now, info, msg) is Ok,
    ensures
        listings_unique(execute_step(m, now, info, msg)->Ok_0.0),
{
    match msg {
        ExecuteMsg::AddCollection { .. } => {},
        ExecuteMsg::AddCoin { .. } => {},
        ExecuteMsg::AddTokenAddress { .. } => {},
        ExecuteMsg::ReceiveNft(r) => {
            let terms = r.msg;
            let a = Ask {
                collection: info.sender,
                token_id: r.token_id,
                seller: r.sender,
                list_price: terms.list_price,
                expires_at: terms.expire,
                token_address: terms.token_address,
            };
            let p = ask_is(info.sender@, r.token_id@);
            assert(forall|k: int| 0 <= k < m.asks.len() ==> !p(m.asks[k]));
            lemma_distinct_push(m.asks, a, same_ask());
        },
        ExecuteMsg::Receive(r) => {
            let k = first_match(m.tokens, token_address_is(info.sender@))->0;
            lemma_bid_unique(
                m,
                now,
                r.sender,
                r.msg.nft_address,
                r.msg.expire,
                r.msg.sale_type,
                r.msg.token_id,
                Asset { denom: m.tokens[k].symbol, amount: r.amount },
                Some(info.sender),
            );
        },
        ExecuteMsg::SetBidCoin { nft_address, expire, sale_type, token_id, list_price } => {
            lemma_bid_unique(m, now, info.sender, nft_address, expire, sale_type, token_id, list_price, None);
        },
        ExecuteMsg::RemoveBid { nft_address, token_id } => {
            let p = bid_is(nft_address@, token_id@, info.sender@);
            lemma_first_match_some(m.bids, p);
            lemma_distinct_remove(m.bids, first_match(m.bids, p)->0, same_bid());
        },
        ExecuteMsg::RemoveCollectionBid { nft_address } => {
            let p = collection_bid_is(nft_address@, info.sender@);
            lemma_first_match_some(m.collection_bids, p);
            lemma_distinct_remove(m.collection_bids, first_match(m.collection_bids, p)->0, same_collection_bid());
        },
        ExecuteMsg::WithdrawNft { nft_address, token_id } => {
            let p = ask_is(nft_address@, token_id@);
            lemma_first_match_some(m.asks, p);
            lemma_distinct_remove(m.asks, first_match(m.asks, p)->0, same_ask());
            lemma_distinct_filter(m.bids, not_bid_on(nft_address@, token_id@), same_bid());
        },
        ExecuteMsg::AcceptBid { nft_address, token_id, bidder } => {
            let pa = ask_is(nft_address@, token_id@);
            lemma_first_match_some(m.asks, pa);
            let i = first_match(m.asks, pa)->0;
            let j = first_match(m.bids, bid_is(nft_address@, token_id@, bidder@))->0;
            let b = m.bids[j];
            lemma_sale_unique(m, i, b.bidder, b.price, b.token_address, m.bids.remove(j).filter(bid_on(nft_address@, token_id@)), now);
        },
        ExecuteMsg::AcceptCollectionBid { nft_address, token_id, bidder } => {
            let pa = ask_is(nft_address@, token_id@);
            lemma_first_match_some(m.asks, pa);
            let i = first_match(m.asks, pa)->0;
            let q = collection_bid_is(nft_address@, bidder@);
            lemma_first_match_some(m.collection_bids, q);
            let k = first_match(m.collection_bids, q)->0;
            let b = m.collection_bids[k];
            lemma_sale_unique(m, i, b.bidder, b.price, b.token_address, m.bids.filter(bid_on(nft_address@, token_id@)), now);
            lemma_distinct_remove(m.collection_bids, k, same_collection_bid());
        },
    }
}

/// A new marketplace has no listings.
pub proof fn law_new_market_listings_unique(owner: String, admin: String)
    ensures
        listings_unique(crate::model::instantiated(owner, admin)),
{
}

/// Once a token is withdrawn or sold, it is no longer listed: it cannot be
/// sold or withdrawn a second time.
pub proof fn law_disposed_token_unlisted(m: MarketModel, now: u64, sender: String, collection: String, token_id: String, bidder: String)
    requires
        listings_unique(m),
    ensures
        withdraw_step(m, sender, collection, token_id) is Ok ==>
            first_match(withdraw_step(m, sender, collection, token_id)->Ok_0.0.asks, ask_is(collection@, token_id@)) is None,
        accept_bid_step(m, now, sender, collection, token_id, bidder) is Ok ==>
            first_match(accept_bid_step(m, now, sender, collection, token_id, bidder)->Ok_0.0.asks, ask_is(collection@, token_id@)) is None,
        accept_collection_bid_step(m, now, sender, collection, token_id, bidder) is Ok ==>
            first_match(accept_collection_bid_step(m, now, sender, collection, token_id, bidder)->Ok_0.0.asks, ask_is(collection@, token_id@)) is None,
{
    let p = ask_is(collection@, token_id@);
    if first_match(m.asks, p) is Some {
        lemma_first_match_some(m.asks, p);
        let i = first_match(m.asks, p)->0;
        let r = m.asks.remove(i);
        assert forall|k: int| 0 <= k < r.len() implies !p(#[trigger] r[k]) by {
            if k < i {
                assert(r[k] == m.asks[k]);
            } else {
                assert(r[k] == m.asks[k + 1]);
                assert(!same_ask()(m.asks[i], m.asks[k + 1]));
            }
        }
        crate::model::lemma_first_match_none(r, p);
    }
}


/// Only a manager's message changes the managers' settings: the registered
/// collections and the accepted currencies. Nobody's message changes the
/// managers themselves.
#[verifier::rlimit(50)]
pub proof fn law_only_managers_change_settings(m: MarketModel, now: u64, info: MessageInfo, msg: ExecuteMsg)
    requires
        execute_step(m, now, info, msg) is Ok,
    ensures
        execute_step(m, now, info, msg)->Ok_0.0.owner == m.owner,
        execute_step(m, now, info, msg)->Ok_0.0.admin == m.admin,
        !crate::model::is_manager(m, info.sender) ==> settings_unchanged(m, execute_step(m, now, info, msg)->Ok_0.0),
{
    match msg {
        ExecuteMsg::AddCollection { .. } => {},
        ExecuteMsg::AddCoin { .. } => {},
        ExecuteMsg::AddTokenAddress { .. } => {},
        ExecuteMsg::ReceiveNft(_) => {},
        ExecuteMsg::Receive(r) => {
            let k = first_match(m.tokens, token_address_is(info.sender@))->0;
            lemma_bid_keeps_collections(
                m,
                now,
                r.sender,
                r.msg.nft_address,
                r.msg.expire,
                r.msg.sale_type,
                r.msg.token_id,
                Asset { denom: m.tokens[k].symbol, amount: r.amount },
                Some(info.sender),
            );
        },
        ExecuteMsg::SetBidCoin { nft_address, expire, sale_type, token_id, list_price } => {
            lemma_bid_keeps_collections(m, now, info.sender, nft_address, expire, sale_type, token_id, list_price, None);
        },
        ExecuteMsg::RemoveBid { .. } => {},
        ExecuteMsg::RemoveCollectionBid { .. } => {},
        ExecuteMsg::WithdrawNft { .. } => {},
        ExecuteMsg::AcceptBid { nft_address, token_id, bidder } => {
            let i = first_match(m.asks, ask_is(nft_address@, token_id@))->0;
            let j = first_match(m.bids, bid_is(nft_address@, token_id@, bidder@))->0;
            let b = m.bids[j];
            lemma_sale_keeps_collections(m, i, b.bidder, b.price, b.token_address, m.bids.remove(j).filter(bid_on(nft_address@, token_id@)), now);
        },
        ExecuteMsg::AcceptCollectionBid { nft_address, token_id, bidder } => {
            let i = first_match(m.asks, ask_is(nft_address@, token_id@))->0;
            let k = first_match(m.collection_bids, collection_bid_is(nft_address@, bidder@))->0;
            let b = m.collection_bids[k];
            lemma_sale_keeps_collections(m, i, b.bidder, b.price, b.token_address, m.bids.filter(bid_on(nft_address@, token_id@)), now);
        },
    }
}


/// Whether a payment sends a token.
pub open spec fn nft_weight() -> spec_fn(Payment) -> int {
    |p: Payment| if p is Nft { 1int } else { 0int }
}

/// The number of tokens the payments send.
pub open spec fn nfts_sent(payments: Seq<Payment>) -> int {
    sum_of(payments, nft_weight())
}

proof fn lemma_refunds_send_no_nft(bids: Seq<Bid>)
    ensures
        nfts_sent(refunds(bids)) == 0,
{
    let g = |b: Bid| refund(b);
    let f = nft_weight();
    assert(refunds(bids) =~= bids.map_values(g));
    lemma_sum_map(bids, g, f);
    lemma_sum_ext(bids, |x: Bid| f(g(x)), |x: Bid| 0int);
    lemma_sum_zero(bids);
}

proof fn lemma_sale_sends_one_nft(
    m: MarketModel,
    i: int,
    buyer: String,
    price: Asset,
    token_address: Option<String>,
    refunded: Seq<Bid>,
    now: u64,
)
    requires
        0 <= i < m.asks.len(),
        sale(m, i, buyer, price, token_address, refunded, now) is Ok,
    ensures
        ({
            let (m2, payments) = sale(m, i, buyer, price, token_address, refunded, now)->Ok_0;
            &&& nfts_sent(payments) == 1
            &&& m2.asks.len() == m.asks.len() - 1
        }),
{
    let ask = m.asks[i];
    let ci = first_match(m.collections, collection_is(ask.collection@))->0;
    let collection = m.collections[ci];
    let f = nft_weight();
    let royalty = royalty_amount(price.amount, collection.royalty_portion);
    let seller_pay = Payment::Funds {
        recipient: ask.seller,
        asset: Asset { denom: price.denom, amount: seller_amount(collection, price.amount) as u128 },
        token_address,
    };
    let nft = Payment::Nft { collection: ask.collection, recipient: buyer, token_id: ask.token_id };
    let royalties = royalty_payments(collection, price, token_address);
    let pay_of = |u: UserInfo| Payment::Funds {
        recipient: u.address,
        asset: Asset { denom: price.denom, amount: member_share(royalty, u) as u128 },
        token_address,
    };
    assert(royalties == collection.members@.map_values(pay_of));
    lemma_sum_map(collection.members@, pay_of, f);
    lemma_sum_ext(collection.members@, |u: UserInfo| f(pay_of(u)), |u: UserInfo| 0int);
    lemma_sum_zero(collection.members@);
    lemma_refunds_send_no_nft(refunded);
    let payments = sale(m, i, buyer, price, token_address, refunded, now)->Ok_0.1;
    assert(payments =~= ((refunds(refunded) + royalties) + seq![seller_pay]) + seq![nft]);
    lemma_sum_concat((refunds(refunded) + royalties) + seq![seller_pay], seq![nft], f);
    lemma_sum_concat(refunds(refunded) + royalties, seq![seller_pay], f);
    lemma_sum_concat(refunds(refunded), royalties, f);
    assert(seq![seller_pay] =~= Seq::<Payment>::empty().push(seller_pay));
    lemma_sum_push(Seq::<Payment>::empty(), seller_pay, f);
    assert(seq![nft] =~= Seq::<Payment>::empty().push(nft));
    lemma_sum_push(Seq::<Payment>::empty(), nft, f);
}

proof fn lemma_bid_custody(
    m: MarketModel,
    now: u64,
    bidder: String,
    nft_address: String,
    expire: u64,
    sale_type: SaleType,
    token_id: Option<String>,
    price: Asset,
    token_address: Option<String>,
)
    requires
        bid_step(m, now, bidder, nft_address, expire, sale_type, token_id, price, token_address) is Ok,
    ensures
        ({
            let (m2, payments) = bid_step(m, now, bidder, nft_address, expire, sale_type, token_id, price, token_address)->Ok_0;
            m2.asks.len() + nfts_sent(payments) == m.asks.len()
        }),
{
    let payments = bid_step(m, now, bidder, nft_address, expire, sale_type, token_id, price, token_address)->Ok_0.1;
    match sale_type {
        SaleType::CollectionBid => {
            assert(payments =~= Seq::<Payment>::empty());
        },
        SaleType::Auction => {
            assert(payments =~= Seq::<Payment>::empty());
        },
        SaleType::FixedPrice => {
            let tid = token_id->0;
            lemma_first_match_some(m.asks, ask_is(nft_address@, tid@));
            let i = first_match(m.asks, ask_is(nft_address@, tid@))->0;
            lemma_sale_sends_one_nft(m, i, bidder, price, token_address, m.bids.filter(bid_on(nft_address@, tid@)), now);
        },
    }
}

/// The marketplace holds exactly the listed tokens: for every message
/// handled, the listings afterwards plus the tokens sent out equal the
/// listings before plus the token the message brought in. A token leaves
/// only when its listing ends, and a listing ends only when its token leaves.
#[verifier::rlimit(50)]
pub proof fn law_custody_balance(m: MarketModel, now: u64, info: MessageInfo, msg: ExecuteMsg)
    requires
        execute_step(m, now, info, msg) is Ok,
    ensures
        ({
            let (m2, payments) = execute_step(m, now, info, msg)->Ok_0;
            m2.asks.len() + nfts_sent(payments) == m.asks.len() + if msg is ReceiveNft { 1int } else { 0int }
        }),
{
    let payments = execute_step(m, now, info, msg)->Ok_0.1;
    let f = nft_weight();
    match msg {
        ExecuteMsg::AddCollection { .. } => {
            assert(payments =~= Seq::<Payment>::empty());
        },
        ExecuteMsg::AddCoin { .. } => {
            assert(payments =~= Seq::<Payment>::empty());
        },
        ExecuteMsg::AddTokenAddress { .. } => {
            assert(payments =~= Seq::<Payment>::empty());
        },
        ExecuteMsg::ReceiveNft(_) => {
            assert(payments =~= Seq::<Payment>::empty());
        },
        ExecuteMsg::Receive(r) => {
            let k = first_match(m.tokens, token_address_is(info.sender@))->0;
            lemma_bid_custody(
                m,
                now,
                r.sender,
                r.msg.nft_address,
                r.msg.expire,
                r.msg.sale_type,
                r.msg.token_id,
                Asset { denom: m.tokens[k].symbol, amount: r.amount },
                Some(info.sender),
            );
        },
        ExecuteMsg::SetBidCoin { nft_address, expire, sale_type, token_id, list_price } => {
            lemma_bid_custody(m, now, info.sender, nft_address, expire, sale_type, token_id, list_price, None);
        },
        ExecuteMsg::RemoveBid { nft_address, token_id } => {
            let j = first_match(m.bids, bid_is(nft_address@, token_id@, info.sender@))->0;
            let p = refund(m.bids[j]);
            assert(seq![p] =~= Seq::<Payment>::empty().push(p));
            lemma_sum_push(Seq::<Payment>::empty(), p, f);
        },
        ExecuteMsg::RemoveCollectionBid { nft_address } => {
            let j = first_match(m.collection_bids, collection_bid_is(nft_address@, info.sender@))->0;
            let p = collection_refund(m.collection_bids[j]);
            assert(seq![p] =~= Seq::<Payment>::empty().push(p));
            lemma_sum_push(Seq::<Payment>::empty(), p, f);
        },
        ExecuteMsg::WithdrawNft { nft_address, token_id } => {
            lemma_first_match_some(m.asks, ask_is(nft_address@, token_id@));
            let i = first_match(m.asks, ask_is(nft_address@, token_id@))->0;
            let ask = m.asks[i];
            let nft = Payment::Nft { collection: ask.collection, recipient: ask.seller, token_id: ask.token_id };
            let refunded = m.bids.filter(bid_on(nft_address@, token_id@));
            lemma_sum_concat(refunds(refunded), seq![nft], f);
            lemma_refunds_send_no_nft(refunded);
            assert(seq![nft] =~= Seq::<Payment>::empty().push(nft));
            lemma_sum_push(Seq::<Payment>::empty(), nft, f);
        },
        ExecuteMsg::AcceptBid { nft_address, token_id, bidder } => {
            lemma_first_match_some(m.asks, ask_is(nft_address@, token_id@));
            let i = first_match(m.asks, ask_is(nft_address@, token_id@))->0;
            let j = first_match(m.bids, bid_is(nft_address@, token_id@, bidder@))->0;
            let b = m.bids[j];
            lemma_sale_sends_one_nft(m, i, b.bidder, b.price, b.token_address, m.bids.remove(j).filter(bid_on(nft_address@, token_id@)), now);
        },
        ExecuteMsg::AcceptCollectionBid { nft_address, token_id, bidder } => {
            lemma_first_match_some(m.asks, ask_is(nft_address@, token_id@));
            let i = first_match(m.asks, ask_is(nft_address@, token_id@))->0;
            let k = first_match(m.collection_bids, collection_bid_is(nft_address@, bidder@))->0;
            let b = m.collection_bids[k];
            lemma_sale_sends_one_nft(m, i, b.bidder, b.price, b.token_address, m.bids.filter(bid_on(nft_address@, token_id@)), now);
        },
    }
}


/// A completed sale appends one record: the sold token, its seller, the
/// buyer, the price, and the time the sale was made.
proof fn lemma_sale_record(
    m: MarketModel,
    i: int,
    buyer: String,
    price: Asset,
    token_address: Option<String>,
    refunded: Seq<Bid>,
    now: u64,
)
    requires
        0 <= i < m.asks.len(),
        sale(m, i, buyer, price, token_address, refunded, now) is Ok,
    ensures
        ({
            let m2 = sale(m, i, buyer, price, token_address, refunded, now)->Ok_0.0;
            let r = m2.sales.last();
            &&& m2.sales.len() == m.sales.len() + 1
            &&& m2.sales.drop_last() == m.sales
            &&& r.time == now
            &&& r.buyer == buyer
            &&& r.seller == m.asks[i].seller
            &&& r.collection == m.asks[i].collection
            &&& r.token_id == m.asks[i].token_id
            &&& r.price == price
            &&& r.token_address == token_address
        }),
{
    let m2 = sale(m, i, buyer, price, token_address, refunded, now)->Ok_0.0;
    assert(m2.sales.drop_last() =~= m.sales);
}

proof fn lemma_bid_sale_record(
    m: MarketModel,
    now: u64,
    bidder: String,
    nft_address: String,
    expire: u64,
    sale_type: SaleType,
    token_id: Option<String>,
    price: Asset,
    token_address: Option<String>,
)
    requires
        bid_step(m, now, bidder, nft_address, expire, sale_type, token_id, price, token_address) is Ok,
    ensures
        ({
            let m2 = bid_step(m, now, bidder, nft_address, expire, sale_type, token_id, price, token_address)->Ok_0.0;
            let r = m2.sales.last();
            &&& sale_type !is FixedPrice ==> m2.sales == m.sales
            &&& sale_type is FixedPrice ==> {
                &&& m2.sales.len() == m.sales.len() + 1
                &&& m2.sales.drop_last() == m.sales
                &&& r.time == now
                &&& r.buyer == bidder
                &&& r.collection@ == nft_address@
                &&& r.token_id@ == token_id->0@
                &&& r.price == price
                &&& r.token_address == token_address
            }
        }),
{
    match sale_type {
        SaleType::FixedPrice => {
            let tid = token_id->0;
            lemma_first_match_some(m.asks, ask_is(nft_address@, tid@));
            let i = first_match(m.asks, ask_is(nft_address@, tid@))->0;
            lemma_sale_record(m, i, bidder, price, token_address, m.bids.filter(bid_on(nft_address@, tid@)), now);
        },
        _ => {},
    }
}

/// The sale history only grows, by at most one record per message; a
/// record is made exactly when a token is sold, at the block time of the
/// message that sold it, for the token the message names, with its seller
/// and the buyer who bought it.
#[verifier::rlimit(50)]
pub proof fn law_sales_recorded_at_block_time(m: MarketModel, now: u64, info: MessageInfo, msg: ExecuteMsg)
    requires
        execute_step(m, now, info, msg) is Ok,
    ensures
        ({
            let m2 = execute_step(m, now, info, msg)->Ok_0.0;
            let r = m2.sales.last();
            &&& m2.sales == m.sales || (m2.sales.len() == m.sales.len() + 1 && m2.sales.drop_last() == m.sales
                && r.time == now)
            &&& match msg {
                ExecuteMsg::AcceptBid { nft_address, token_id, bidder } => {
                    &&& m2.sales.len() == m.sales.len() + 1
                    &&& r.collection@ == nft_address@
                    &&& r.token_id@ == token_id@
                    &&& r.buyer@ == bidder@
                    &&& r.seller@ == info.sender@
                    &&& exists|j: int| 0 <= j < m.bids.len() && (#[trigger] m.bids[j]).collection@ == nft_address@
                        && m.bids[j].token_id@ == token_id@ && m.bids[j].bidder@ == bidder@ && r.price == m.bids[j].price
                        && r.token_address == m.bids[j].token_address
                },
                ExecuteMsg::AcceptCollectionBid { nft_address, token_id, bidder } => {
                    &&& m2.sales.len() == m.sales.len() + 1
                    &&& r.collection@ == nft_address@
                    &&& r.token_id@ == token_id@
                    &&& r.buyer@ == bidder@
                    &&& r.seller@ == info.sender@
                    &&& exists|j: int| 0 <= j < m.collection_bids.len() && (#[trigger] m.collection_bids[j]).collection@
                        == nft_address@ && m.collection_bids[j].bidder@ == bidder@ && r.price == m.collection_bids[j].price
                        && r.token_address == m.collection_bids[j].token_address
                },
                ExecuteMsg::SetBidCoin { nft_address, sale_type, token_id, list_price, .. } => if sale_type is FixedPrice {
                    &&& m2.sales.len() == m.sales.len() + 1
                    &&& r.collection@ == nft_address@
                    &&& r.token_id@ == token_id->0@
                    &&& r.buyer == info.sender
                    &&& r.price == list_price
                    &&& r.token_address is None
                } else {
                    m2.sales == m.sales
                },
                ExecuteMsg::Receive(rc) => if rc.msg.sale_type is FixedPrice {
                    &&& m2.sales.len() == m.sales.len() + 1
                    &&& r.collection@ == rc.msg.nft_address@
                    &&& r.token_id@ == rc.msg.token_id->0@
                    &&& r.buyer == rc.sender
                    &&& r.price.amount == rc.amount
                    &&& r.token_address == Some(info.sender)
                } else {
                    m2.sales == m.sales
                },
                _ => m2.sales == m.sales,
            }
        }),
{
    match msg {
        ExecuteMsg::AddCollection { .. } => {},
        ExecuteMsg::AddCoin { .. } => {},
        ExecuteMsg::AddTokenAddress { .. } => {},
        ExecuteMsg::ReceiveNft(_) => {},
        ExecuteMsg::Receive(rc) => {
            let k = first_match(m.tokens, token_address_is(info.sender@))->0;
            lemma_bid_sale_record(
                m,
                now,
                rc.sender,
                rc.msg.nft_address,
                rc.msg.expire,
                rc.msg.sale_type,
                rc.msg.token_id,
                Asset { denom: m.tokens[k].symbol, amount: rc.amount },
                Some(info.sender),
            );
        },
        ExecuteMsg::SetBidCoin { nft_address, expire, sale_type, token_id, list_price } => {
            lemma_bid_sale_record(m, now, info.sender, nft_address, expire, sale_type, token_id, list_price, None);
        },
        ExecuteMsg::RemoveBid { .. } => {},
        ExecuteMsg::RemoveCollectionBid { .. } => {},
        ExecuteMsg::WithdrawNft { .. } => {},
        ExecuteMsg::AcceptBid { nft_address, token_id, bidder } => {
            lemma_first_match_some(m.asks, ask_is(nft_address@, token_id@));
            let i = first_match(m.asks, ask_is(nft_address@, token_id@))->0;
            lemma_first_match_some(m.bids, bid_is(nft_address@, token_id@, bidder@));
            let j = first_match(m.bids, bid_is(nft_address@, token_id@, bidder@))->0;
            let b = m.bids[j];
            lemma_sale_record(m, i, b.bidder, b.price, b.token_address, m.bids.remove(j).filter(bid_on(nft_address@, token_id@)), now);
        },
        ExecuteMsg::AcceptCollectionBid { nft_address, token_id, bidder } => {
            lemma_first_match_some(m.asks, ask_is(nft_address@, token_id@));
            let i = first_match(m.asks, ask_is(nft_address@, token_id@))->0;
            lemma_first_match_some(m.collection_bids, collection_bid_is(nft_address@, bidder@));
            let k = first_match(m.collection_bids, collection_bid_is(nft_address@, bidder@))->0;
            let b = m.collection_bids[k];
            lemma_sale_record(m, i, b.bidder, b.price, b.token_address, m.bids.filter(bid_on(nft_address@, token_id@)), now);
        },
    }
}

/// Listing a token is refused as already listed only when an ask for the
/// same token of the same collection exists; a token of another collection
/// with the same id never blocks it. A listing that succeeds adds exactly
/// one ask, at the end, for that token of that collection, by its sender.
pub proof fn law_listing_keyed_by_collection_and_token(m: MarketModel, now: u64, collection: String, msg: crate::types::Cw721ReceiveMsg)
    ensures
        crate::model::list_step(m, now, collection, msg) == Err::<(MarketModel, Seq<Payment>), crate::types::ContractError>(
            crate::types::ContractError::AskExists,
        ) ==> exists|k: int|
            0 <= k < m.asks.len() && (#[trigger] m.asks[k]).collection@ == collection@ && m.asks[k].token_id@ == msg.token_id@,
        (exists|k: int| 0 <= k < m.collections.len() && (#[trigger] m.collections[k]).nft_address@ == collection@)
            && msg.msg.expire > now
            && crate::model::currency_accepted(m, msg.msg.list_price.denom, msg.msg.token_address)
            && (forall|k: int| 0 <= k < m.asks.len() ==> !((#[trigger] m.asks[k]).collection@ == collection@
                && m.asks[k].token_id@ == msg.token_id@))
            ==> crate::model::list_step(m, now, collection, msg) is Ok,
        crate::model::list_step(m, now, collection, msg) is Ok ==> ({
            let m2 = crate::model::list_step(m, now, collection, msg)->Ok_0.0;
            &&& m2.asks.len() == m.asks.len() + 1
            &&& m2.asks.drop_last() == m.asks
            &&& m2.asks.last().collection == collection
            &&& m2.asks.last().token_id == msg.token_id
            &&& m2.asks.last().seller == msg.sender
            &&& m2.asks.last().list_price == msg.msg.list_price
            &&& m2.asks.last().expires_at == msg.msg.expire
        }),
{
    let p = ask_is(collection@, msg.token_id@);
    if first_match(m.asks, p) is Some {
        lemma_first_match_some(m.asks, p);
    }
    if exists|k: int| 0 <= k < m.collections.len() && (#[trigger] m.collections[k]).nft_address@ == collection@ {
        let k = choose|k: int| 0 <= k < m.collections.len() && (#[trigger] m.collections[k]).nft_address@ == collection@;
        assert(collection_is(collection@)(m.collections[k]));
    }
    if crate::model::list_step(m, now, collection, msg) is Ok {
        let m2 = crate::model::list_step(m, now, collection, msg)->Ok_0.0;
        assert(m2.asks.drop_last() =~= m.asks);
    }
}


/// An auction bid that is placed is appended as offered: on the named token,
/// by the bidder, at the offered price, recording as its seller the seller
/// of that token's listing. A collection bid is appended likewise.
pub proof fn law_bid_placement(
    m: MarketModel,
    now: u64,
    bidder: String,
    nft_address: String,
    expire: u64,
    sale_type: SaleType,
    token_id: Option<String>,
    price: Asset,
    token_address: Option<String>,
)
    requires
        bid_step(m, now, bidder, nft_address, expire, sale_type, token_id, price, token_address) is Ok,
    ensures
        ({
            let (m2, payments) = bid_step(m, now, bidder, nft_address, expire, sale_type, token_id, price, token_address)->Ok_0;
            &&& sale_type is Auction ==> {
                let b = m2.bids.last();
                &&& payments.len() == 0
                &&& m2.bids.len() == m.bids.len() + 1
                &&& m2.bids.drop_last() == m.bids
                &&& b.collection@ == nft_address@
                &&& b.token_id@ == token_id->0@
                &&& b.bidder == bidder
                &&& b.price == price
                &&& b.token_address == token_address
                &&& b.expires_at == expire
                &&& exists|k: int| 0 <= k < m.asks.len() && (#[trigger] m.asks[k]).collection@ == nft_address@
                    && m.asks[k].token_id@ == token_id->0@ && b.seller == m.asks[k].seller
            }
            &&& sale_type is CollectionBid ==> {
                let b = m2.collection_bids.last();
                &&& payments.len() == 0
                &&& m2.collection_bids.len() == m.collection_bids.len() + 1
                &&& m2.collection_bids.drop_last() == m.collection_bids
                &&& b.collection@ == nft_address@
                &&& b.bidder == bidder
                &&& b.price == price
                &&& b.token_address == token_address
                &&& b.expires_at == expire
            }
        }),
{
    let m2 = bid_step(m, now, bidder, nft_address, expire, sale_type, token_id, price, token_address)->Ok_0.0;
    match sale_type {
        SaleType::Auction => {
            let tid = token_id->0;
            lemma_first_match_some(m.asks, ask_is(nft_address@, tid@));
            let i = first_match(m.asks, ask_is(nft_address@, tid@))->0;
            assert(m2.bids.drop_last() =~= m.bids);
            assert(m.asks[i].collection@ == nft_address@ && m.asks[i].token_id@ == tid@);
        },
        SaleType::CollectionBid => {
            assert(m2.collection_bids.drop_last() =~= m.collection_bids);
        },
        SaleType::FixedPrice => {},
    }
}

} // verus!
