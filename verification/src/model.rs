//! The marketplace's state as mathematical sequences, and what each message
//! does to it.
use vstd::prelude::*;

use crate::decimal::{ratio, Decimal, DECIMAL_FRACTIONAL};
use crate::types::{
    Ask, Asset, Bid, Collection, CollectionBid, ContractError, Cw20ReceiveMsg, Cw721ReceiveMsg,
    ExecuteMsg, MessageInfo, Payment, SaleRecord, SaleType, TokenInfo, UserInfo,
};

verus! {

/// The marketplace's state.
#[verifier::ext_equal]
pub struct MarketModel {
    pub owner: String,
    pub admin: String,
    pub collections: Seq<Collection>,
    pub coins: Seq<String>,
    pub tokens: Seq<TokenInfo>,
    pub asks: Seq<Ask>,
    pub bids: Seq<Bid>,
    pub collection_bids: Seq<CollectionBid>,
    pub sales: Seq<SaleRecord>,
}

/// The index of the first element of `s` that satisfies `p`, if any.
pub open spec fn first_match<A>(s: Seq<A>, p: spec_fn(A) -> bool) -> Option<int> {
    if exists|i: int| 0 <= i < s.len() && p(s[i]) {
        Some(choose|i: int| 0 <= i < s.len() && p(s[i]) && forall|j: int| 0 <= j < i ==> !p(s[j]))
    } else {
        None
    }
}

/// An index that satisfies `p` with none before it is the first match.
pub proof fn lemma_first_match_at<A>(s: Seq<A>, p: spec_fn(A) -> bool, i: int)
    requires
        0 <= i < s.len(),
        p(s[i]),
        forall|j: int| 0 <= j < i ==> !p(s[j]),
    ensures
        first_match(s, p) == Some(i),
{
    assert(exists|k: int| 0 <= k < s.len() && p(s[k]) && forall|j: int| 0 <= j < k ==> !p(s[j]));
    let k = choose|k: int| 0 <= k < s.len() && p(s[k]) && forall|j: int| 0 <= j < k ==> !p(s[j]);
    if k < i {
        assert(!p(s[k]));
    }
    if i < k {
        assert(!p(s[i]));
    }
}

/// With no element satisfying `p`, there is no first match.
pub proof fn lemma_first_match_none<A>(s: Seq<A>, p: spec_fn(A) -> bool)
    requires
        forall|j: int| 0 <= j < s.len() ==> !p(s[j]),
    ensures
        first_match(s, p) is None,
{
}

/// The first match satisfies `p`, and nothing before it does.
pub proof fn lemma_first_match_some<A>(s: Seq<A>, p: spec_fn(A) -> bool)
    requires
        first_match(s, p) is Some,
    ensures
        0 <= first_match(s, p)->0 < s.len(),
        p(s[first_match(s, p)->0]),
        forall|j: int| 0 <= j < first_match(s, p)->0 ==> !p(s[j]),
{
    let i = choose|i: int| 0 <= i < s.len() && p(s[i]);
    lemma_exists_first(s, p, i);
}

proof fn lemma_exists_first<A>(s: Seq<A>, p: spec_fn(A) -> bool, i: int)
    requires
        0 <= i < s.len(),
        p(s[i]),
    ensures
        exists|k: int| 0 <= k < s.len() && p(s[k]) && forall|j: int| 0 <= j < k ==> !p(s[j]),
    decreases i,
{
    if exists|j: int| 0 <= j < i && p(s[j]) {
        let j = choose|j: int| 0 <= j < i && p(s[j]);
        lemma_exists_first(s, p, j);
    } else {
        assert(forall|j: int| 0 <= j < i ==> !p(s[j]));
    }
}

pub open spec fn collection_is(nft_address: Seq<char>) -> spec_fn(Collection) -> bool {
    |c: Collection| c.nft_address@ == nft_address
}

pub open spec fn coin_is(denom: Seq<char>) -> spec_fn(String) -> bool {
    |d: String| d@ == denom
}

pub open spec fn token_symbol_is(symbol: Seq<char>) -> spec_fn(TokenInfo) -> bool {
    |t: TokenInfo| t.symbol@ == symbol
}

pub open spec fn token_address_is(address: Seq<char>) -> spec_fn(TokenInfo) -> bool {
    |t: TokenInfo| t.address@ == address
}

pub open spec fn ask_is(collection: Seq<char>, token_id: Seq<char>) -> spec_fn(Ask) -> bool {
    |a: Ask| a.collection@ == collection && a.token_id@ == token_id
}

pub open spec fn bid_on(collection: Seq<char>, token_id: Seq<char>) -> spec_fn(Bid) -> bool {
    |b: Bid| b.collection@ == collection && b.token_id@ == token_id
}

pub open spec fn not_bid_on(collection: Seq<char>, token_id: Seq<char>) -> spec_fn(Bid) -> bool {
    |b: Bid| !(b.collection@ == collection && b.token_id@ == token_id)
}

pub open spec fn bid_is(collection: Seq<char>, token_id: Seq<char>, bidder: Seq<char>) -> spec_fn(Bid) -> bool {
    |b: Bid| b.collection@ == collection && b.token_id@ == token_id && b.bidder@ == bidder
}

pub open spec fn collection_bid_is(collection: Seq<char>, bidder: Seq<char>) -> spec_fn(CollectionBid) -> bool {
    |b: CollectionBid| b.collection@ == collection && b.bidder@ == bidder
}

/// Whether `sender` may manage the marketplace's settings.
pub open spec fn is_manager(m: MarketModel, sender: String) -> bool {
    sender@ == m.owner@ || sender@ == m.admin@
}

/// The sum of the members' portions, in atomic units.
pub open spec fn portion_sum(members: Seq<UserInfo>) -> int
    decreases members.len(),
{
    if members.len() == 0 {
        0
    } else {
        portion_sum(members.drop_last()) + members.last().portion.atomics
    }
}

/// A royalty rule takes at most the whole price and gives its members at
/// most the whole royalty.
pub open spec fn valid_royalty(royalty_portion: Decimal, members: Seq<UserInfo>) -> bool {
    &&& royalty_portion.atomics <= DECIMAL_FRACTIONAL
    &&& portion_sum(members) <= DECIMAL_FRACTIONAL
}

/// Whether the marketplace takes `denom` (with the cw20 contract
/// `token_address`, or as a native coin where that is `None`) as a currency.
pub open spec fn currency_accepted(m: MarketModel, denom: String, token_address: Option<String>) -> bool {
    match token_address {
        None => first_match(m.coins, coin_is(denom@)) is Some,
        Some(addr) => match first_match(m.tokens, token_address_is(addr@)) {
            Some(i) => m.tokens[i].symbol@ == denom@,
            None => false,
        },
    }
}

/// Two amounts of the same currency, equal in value.
pub open spec fn same_price(a: Asset, a_token: Option<String>, b: Asset, b_token: Option<String>) -> bool {
    &&& a.denom@ == b.denom@
    &&& a.amount == b.amount
    &&& match (a_token, b_token) {
        (None, None) => true,
        (Some(x), Some(y)) => x@ == y@,
        _ => false,
    }
}

/// What returning a bid's escrow owes its bidder.
pub open spec fn refund(b: Bid) -> Payment {
    Payment::Funds { recipient: b.bidder, asset: b.price, token_address: b.token_address }
}

/// What returning a collection bid's escrow owes its bidder.
pub open spec fn collection_refund(b: CollectionBid) -> Payment {
    Payment::Funds { recipient: b.bidder, asset: b.price, token_address: b.token_address }
}

pub open spec fn refunds(bids: Seq<Bid>) -> Seq<Payment> {
    bids.map_values(|b: Bid| refund(b))
}

/// The royalty a sale at `price` owes the collection's members together.
pub open spec fn royalty_amount(price: u128, royalty_portion: Decimal) -> int {
    ratio(price as int, royalty_portion.atomics as int, DECIMAL_FRACTIONAL as int)
}

/// One member's share of the royalty `royalty`.
pub open spec fn member_share(royalty: int, member: UserInfo) -> int {
    ratio(royalty, member.portion.atomics as int, DECIMAL_FRACTIONAL as int)
}

/// The sum of the members' shares of `royalty`.
pub open spec fn shares_total(royalty: int, members: Seq<UserInfo>) -> int
    decreases members.len(),
{
    if members.len() == 0 {
        0
    } else {
        shares_total(royalty, members.drop_last()) + member_share(royalty, members.last())
    }
}

/// Whether splitting `price` by `collection`'s rule exceeds what can be held
/// or what was paid.
pub open spec fn split_overflows(price: u128, collection: Collection) -> bool {
    let royalty = royalty_amount(price, collection.royalty_portion);
    ||| royalty > u128::MAX
    ||| exists|i: int| 0 <= i < collection.members@.len() && member_share(royalty, #[trigger] collection.members@[i]) > u128::MAX
    ||| shares_total(royalty, collection.members@) > price
}

/// The royalty payments of a sale at `price`: each member's share, in the
/// members' order, in the sale's currency.
pub open spec fn royalty_payments(collection: Collection, price: Asset, token_address: Option<String>) -> Seq<Payment> {
    let royalty = royalty_amount(price.amount, collection.royalty_portion);
    collection.members@.map_values(|u: UserInfo| Payment::Funds {
        recipient: u.address,
        asset: Asset { denom: price.denom, amount: member_share(royalty, u) as u128 },
        token_address,
    })
}

/// What the seller receives of a sale at `price`: the price less the royalty
/// shares.
pub open spec fn seller_amount(collection: Collection, price: u128) -> int {
    price - shares_total(royalty_amount(price, collection.royalty_portion), collection.members@)
}

/// Selling the ask at index `i` to `buyer` for `price`: the bids to refund
/// are `refunded`; the royalty members, then the seller are paid, and the
/// token goes to the buyer. The ask and every bid on its token are removed,
/// and the sale is recorded.
pub open spec fn sale(
    m: MarketModel,
    i: int,
    buyer: String,
    price: Asset,
    token_address: Option<String>,
    refunded: Seq<Bid>,
    now: u64,
) -> Result<(MarketModel, Seq<Payment>), ContractError> {
    let ask = m.asks[i];
    match first_match(m.collections, collection_is(ask.collection@)) {
        None => Err(ContractError::CollectionNotFound),
        Some(ci) => {
            let collection = m.collections[ci];
            if split_overflows(price.amount, collection) {
                Err(ContractError::Overflow)
            } else {
                let payments = refunds(refunded)
                    + royalty_payments(collection, price, token_address)
                    + seq![
                        Payment::Funds {
                            recipient: ask.seller,
                            asset: Asset { denom: price.denom, amount: seller_amount(collection, price.amount) as u128 },
                            token_address,
                        },
                        Payment::Nft { collection: ask.collection, recipient: buyer, token_id: ask.token_id },
                    ];
                let record = SaleRecord {
                    collection: ask.collection,
                    token_id: ask.token_id,
                    seller: ask.seller,
                    buyer,
                    price,
                    token_address,
                    time: now,
                };
                Ok((
                    MarketModel {
                        asks: m.asks.remove(i),
                        bids: m.bids.filter(not_bid_on(ask.collection@, ask.token_id@)),
                        sales: m.sales.push(record),
                        ..m
                    },
                    payments,
                ))
            }
        },
    }
}


/// A new marketplace with the given managers and nothing registered.
pub open spec fn instantiated(owner: String, admin: String) -> MarketModel {
    MarketModel {
        owner,
        admin,
        collections: Seq::empty(),
        coins: Seq::empty(),
        tokens: Seq::empty(),
        asks: Seq::empty(),
        bids: Seq::empty(),
        collection_bids: Seq::empty(),
        sales: Seq::empty(),
    }
}

/// Registering a collection, or replacing the royalty rule of one already
/// registered: for a manager, with a royalty of at most the whole price
/// split into portions that sum to at most the whole royalty.
pub open spec fn add_collection_step(
    m: MarketModel,
    sender: String,
    royalty_portion: Decimal,
    nft_address: String,
    members: Vec<UserInfo>,
) -> Result<(MarketModel, Seq<Payment>), ContractError> {
    if !is_manager(m, sender) {
        Err(ContractError::Unauthorized)
    } else if !valid_royalty(royalty_portion, members@) {
        Err(ContractError::InvalidPortion)
    } else {
        let c = Collection { nft_address, royalty_portion, members };
        let collections = match first_match(m.collections, collection_is(nft_address@)) {
            Some(i) => m.collections.update(i, c),
            None => m.collections.push(c),
        };
        Ok((MarketModel { collections, ..m }, Seq::empty()))
    }
}

/// Accepting a native coin as a currency (a manager's message; accepting
/// one already accepted changes nothing).
pub open spec fn add_coin_step(m: MarketModel, sender: String, symbol: String) -> Result<
    (MarketModel, Seq<Payment>),
    ContractError,
> {
    if !is_manager(m, sender) {
        Err(ContractError::Unauthorized)
    } else if first_match(m.coins, coin_is(symbol@)) is Some {
        Ok((m, Seq::empty()))
    } else {
        Ok((MarketModel { coins: m.coins.push(symbol), ..m }, Seq::empty()))
    }
}

/// Accepting the cw20 token at `address` as the currency `symbol`, or
/// moving an accepted symbol to a new address (a manager's message).
pub open spec fn add_token_step(m: MarketModel, sender: String, symbol: String, address: String) -> Result<
    (MarketModel, Seq<Payment>),
    ContractError,
> {
    if !is_manager(m, sender) {
        Err(ContractError::Unauthorized)
    } else {
        let t = TokenInfo { symbol, address };
        let tokens = match first_match(m.tokens, token_symbol_is(symbol@)) {
            Some(i) => m.tokens.update(i, t),
            None => m.tokens.push(t),
        };
        Ok((MarketModel { tokens, ..m }, Seq::empty()))
    }
}

/// Listing a token that the registered collection `collection` has just
/// sent on behalf of its owner, at a price in an accepted currency, until a
/// time still to come; a token can be listed once at a time.
pub open spec fn list_step(m: MarketModel, now: u64, collection: String, msg: Cw721ReceiveMsg) -> Result<
    (MarketModel, Seq<Payment>),
    ContractError,
> {
    let terms = msg.msg;
    if first_match(m.collections, collection_is(collection@)) is None {
        Err(ContractError::CollectionNotFound)
    } else if terms.expire <= now {
        Err(ContractError::InvalidExpiration)
    } else if !currency_accepted(m, terms.list_price.denom, terms.token_address) {
        Err(ContractError::UnknownCurrency)
    } else if first_match(m.asks, ask_is(collection@, msg.token_id@)) is Some {
        Err(ContractError::AskExists)
    } else {
        let ask = Ask {
            collection,
            token_id: msg.token_id,
            seller: msg.sender,
            list_price: terms.list_price,
            expires_at: terms.expire,
            token_address: terms.token_address,
        };
        Ok((MarketModel { asks: m.asks.push(ask), ..m }, Seq::empty()))
    }
}

/// An offer of `price` (held in escrow) by `bidder`. A collection bid is
/// recorded for a registered collection, once per bidder. An auction bid is
/// recorded on a listed token whose listing has not expired, once per
/// bidder. A fixed-price offer of exactly the listed price buys the token at
/// once.
pub open spec fn bid_step(
    m: MarketModel,
    now: u64,
    bidder: String,
    nft_address: String,
    expire: u64,
    sale_type: SaleType,
    token_id: Option<String>,
    price: Asset,
    token_address: Option<String>,
) -> Result<(MarketModel, Seq<Payment>), ContractError> {
    if expire <= now {
        Err(ContractError::InvalidExpiration)
    } else {
        match sale_type {
            SaleType::CollectionBid => {
                if first_match(m.collections, collection_is(nft_address@)) is None {
                    Err(ContractError::CollectionNotFound)
                } else if first_match(m.collection_bids, collection_bid_is(nft_address@, bidder@)) is Some {
                    Err(ContractError::BidExists)
                } else {
                    let b = CollectionBid { collection: nft_address, bidder, price, token_address, expires_at: expire };
                    Ok((MarketModel { collection_bids: m.collection_bids.push(b), ..m }, Seq::empty()))
                }
            },
            _ => match token_id {
                None => Err(ContractError::TokenIdRequired),
                Some(tid) => match first_match(m.asks, ask_is(nft_address@, tid@)) {
                    None => Err(ContractError::AskNotFound),
                    Some(i) => {
                        let ask = m.asks[i];
                        if ask.expires_at <= now {
                            Err(ContractError::AskExpired)
                        } else if sale_type is Auction {
                            if first_match(m.bids, bid_is(nft_address@, tid@, bidder@)) is Some {
                                Err(ContractError::BidExists)
                            } else {
                                let b = Bid {
                                    collection: nft_address,
                                    token_id: tid,
                                    bidder,
                                    seller: ask.seller,
                                    price,
                                    token_address,
                                    expires_at: expire,
                                };
                                Ok((MarketModel { bids: m.bids.push(b), ..m }, Seq::empty()))
                            }
                        } else if !same_price(price, token_address, ask.list_price, ask.token_address) {
                            Err(ContractError::PriceMismatch)
                        } else {
                            sale(m, i, bidder, price, token_address, m.bids.filter(bid_on(nft_address@, tid@)), now)
                        }
                    },
                },
            },
        }
    }
}

/// An offer paid in cw20 tokens: the accepted token contract `token`
/// reports that `msg.sender` sent it `msg.amount`.
pub open spec fn receive_step(m: MarketModel, now: u64, token: String, msg: Cw20ReceiveMsg) -> Result<
    (MarketModel, Seq<Payment>),
    ContractError,
> {
    match first_match(m.tokens, token_address_is(token@)) {
        None => Err(ContractError::UnknownCurrency),
        Some(k) => bid_step(
            m,
            now,
            msg.sender,
            msg.msg.nft_address,
            msg.msg.expire,
            msg.msg.sale_type,
            msg.msg.token_id,
            Asset { denom: m.tokens[k].symbol, amount: msg.amount },
            Some(token),
        ),
    }
}

/// Whether the funds sent are exactly the offered price.
pub open spec fn funds_match(info: MessageInfo, price: Asset) -> bool {
    &&& info.funds@.len() == 1
    &&& info.funds@[0].denom@ == price.denom@
    &&& info.funds@[0].amount == price.amount
}

/// An offer paid in an accepted native coin sent along with the message.
pub open spec fn bid_coin_step(
    m: MarketModel,
    now: u64,
    info: MessageInfo,
    nft_address: String,
    expire: u64,
    sale_type: SaleType,
    token_id: Option<String>,
    list_price: Asset,
) -> Result<(MarketModel, Seq<Payment>), ContractError> {
    if !funds_match(info, list_price) {
        Err(ContractError::InvalidFunds)
    } else if first_match(m.coins, coin_is(list_price.denom@)) is None {
        Err(ContractError::UnknownCurrency)
    } else {
        bid_step(m, now, info.sender, nft_address, expire, sale_type, token_id, list_price, None)
    }
}

/// A bidder takes back a bid and its escrow.
pub open spec fn remove_bid_step(m: MarketModel, sender: String, collection: String, token_id: String) -> Result<
    (MarketModel, Seq<Payment>),
    ContractError,
> {
    match first_match(m.bids, bid_is(collection@, token_id@, sender@)) {
        None => Err(ContractError::BidNotFound),
        Some(j) => Ok((MarketModel { bids: m.bids.remove(j), ..m }, seq![refund(m.bids[j])])),
    }
}

/// A bidder takes back a collection bid and its escrow.
pub open spec fn remove_collection_bid_step(m: MarketModel, sender: String, collection: String) -> Result<
    (MarketModel, Seq<Payment>),
    ContractError,
> {
    match first_match(m.collection_bids, collection_bid_is(collection@, sender@)) {
        None => Err(ContractError::BidNotFound),
        Some(j) => Ok((
            MarketModel { collection_bids: m.collection_bids.remove(j), ..m },
            seq![collection_refund(m.collection_bids[j])],
        )),
    }
}

/// A seller takes back a listed token: every bid on it is refunded, in
/// order, and the token is returned.
pub open spec fn withdraw_step(m: MarketModel, sender: String, collection: String, token_id: String) -> Result<
    (MarketModel, Seq<Payment>),
    ContractError,
> {
    match first_match(m.asks, ask_is(collection@, token_id@)) {
        None => Err(ContractError::AskNotFound),
        Some(i) => {
            let ask = m.asks[i];
            if sender@ != ask.seller@ {
                Err(ContractError::Unauthorized)
            } else {
                let payments = refunds(m.bids.filter(bid_on(collection@, token_id@)))
                    + seq![Payment::Nft { collection: ask.collection, recipient: ask.seller, token_id: ask.token_id }];
                Ok((
                    MarketModel {
                        asks: m.asks.remove(i),
                        bids: m.bids.filter(not_bid_on(collection@, token_id@)),
                        ..m
                    },
                    payments,
                ))
            }
        },
    }
}

/// A seller sells a listed token to the bidder of an unexpired bid on it;
/// the other bids on the token are refunded.
pub open spec fn accept_bid_step(
    m: MarketModel,
    now: u64,
    sender: String,
    collection: String,
    token_id: String,
    bidder: String,
) -> Result<(MarketModel, Seq<Payment>), ContractError> {
    match first_match(m.asks, ask_is(collection@, token_id@)) {
        None => Err(ContractError::AskNotFound),
        Some(i) => {
            if sender@ != m.asks[i].seller@ {
                Err(ContractError::Unauthorized)
            } else {
                match first_match(m.bids, bid_is(collection@, token_id@, bidder@)) {
                    None => Err(ContractError::BidNotFound),
                    Some(j) => {
                        let b = m.bids[j];
                        if b.expires_at <= now {
                            Err(ContractError::BidExpired)
                        } else {
                            sale(m, i, b.bidder, b.price, b.token_address, m.bids.remove(j).filter(bid_on(collection@, token_id@)), now)
                        }
                    },
                }
            }
        },
    }
}

/// A seller sells a listed token to the bidder of an unexpired collection
/// bid on its collection; every bid on the token is refunded and the
/// collection bid is used up.
pub open spec fn accept_collection_bid_step(
    m: MarketModel,
    now: u64,
    sender: String,
    collection: String,
    token_id: String,
    bidder: String,
) -> Result<(MarketModel, Seq<Payment>), ContractError> {
    match first_match(m.asks, ask_is(collection@, token_id@)) {
        None => Err(ContractError::AskNotFound),
        Some(i) => {
            if sender@ != m.asks[i].seller@ {
                Err(ContractError::Unauthorized)
            } else {
                match first_match(m.collection_bids, collection_bid_is(collection@, bidder@)) {
                    None => Err(ContractError::BidNotFound),
                    Some(k) => {
                        let b = m.collection_bids[k];
                        if b.expires_at <= now {
                            Err(ContractError::BidExpired)
                        } else {
                            match sale(m, i, b.bidder, b.price, b.token_address, m.bids.filter(bid_on(collection@, token_id@)), now) {
                                Ok((m2, payments)) => Ok((
                                    MarketModel { collection_bids: m.collection_bids.remove(k), ..m2 },
                                    payments,
                                )),
                                Err(e) => Err(e),
                            }
                        }
                    },
                }
            }
        },
    }
}

/// What handling `msg`, sent by `info.sender` at time `now`, does.
pub open spec fn execute_step(m: MarketModel, now: u64, info: MessageInfo, msg: ExecuteMsg) -> Result<
    (MarketModel, Seq<Payment>),
    ContractError,
> {
    match msg {
        ExecuteMsg::AddCollection { royalty_portion, nft_address, members } =>
            add_collection_step(m, info.sender, royalty_portion, nft_address, members),
        ExecuteMsg::AddCoin { symbol } => add_coin_step(m, info.sender, symbol),
        ExecuteMsg::AddTokenAddress { symbol, address } => add_token_step(m, info.sender, symbol, address),
        ExecuteMsg::ReceiveNft(r) => list_step(m, now, info.sender, r),
        ExecuteMsg::Receive(r) => receive_step(m, now, info.sender, r),
        ExecuteMsg::SetBidCoin { nft_address, expire, sale_type, token_id, list_price } =>
            bid_coin_step(m, now, info, nft_address, expire, sale_type, token_id, list_price),
        ExecuteMsg::RemoveBid { nft_address, token_id } => remove_bid_step(m, info.sender, nft_address, token_id),
        ExecuteMsg::RemoveCollectionBid { nft_address } => remove_collection_bid_step(m, info.sender, nft_address),
        ExecuteMsg::WithdrawNft { nft_address, token_id } => withdraw_step(m, info.sender, nft_address, token_id),
        ExecuteMsg::AcceptBid { nft_address, token_id, bidder } =>
            accept_bid_step(m, now, info.sender, nft_address, token_id, bidder),
        ExecuteMsg::AcceptCollectionBid { nft_address, token_id, bidder } =>
            accept_collection_bid_step(m, now, info.sender, nft_address, token_id, bidder),
    }
}

} // verus!
