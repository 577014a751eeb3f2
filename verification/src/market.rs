//! The marketplace and the messages that change it.
use vstd::prelude::*;

use crate::decimal::{Decimal, DECIMAL_FRACTIONAL};
use crate::encode::{clone_address, payment_msgs, payments_to_response, response_msgs};
use crate::model::{
    accept_bid_step, accept_collection_bid_step, add_coin_step, add_collection_step,
    add_token_step, ask_is, bid_coin_step, bid_is, bid_on, bid_step, coin_is, collection_bid_is,
    collection_is, currency_accepted, execute_step, first_match, instantiated, is_manager,
    lemma_first_match_at, list_step, not_bid_on, portion_sum, receive_step, refund, refunds,
    remove_bid_step, remove_collection_bid_step, sale, same_price, token_address_is,
    token_symbol_is, valid_royalty, withdraw_step, MarketModel,
};
use crate::settle::split_price;
use crate::types::{
    Ask, Asset, Bid, Collection, CollectionBid, ContractError, Cw20ReceiveMsg, Cw721ReceiveMsg,
    ExecuteMsg, InstantiateMsg, MessageInfo, Payment, Response, SaleRecord, SaleType, TokenInfo,
    UserInfo,
};

verus! {

/// The marketplace: its managers, the collections and currencies it takes,
/// the tokens listed for sale, the offers on them and the completed sales.
pub struct Market {
    owner: String,
    admin: String,
    collections: Vec<Collection>,
    coins: Vec<String>,
    tokens: Vec<TokenInfo>,
    asks: Vec<Ask>,
    bids: Vec<Bid>,
    collection_bids: Vec<CollectionBid>,
    sales: Vec<SaleRecord>,
}

impl View for Market {
    type V = MarketModel;

    closed spec fn view(&self) -> MarketModel {
        MarketModel {
            owner: self.owner,
            admin: self.admin,
            collections: self.collections@,
            coins: self.coins@,
            tokens: self.tokens@,
            asks: self.asks@,
            bids: self.bids@,
            collection_bids: self.collection_bids@,
            sales: self.sales@,
        }
    }
}

/// `after` and `r` are what `expected` says a handled message gives: on
/// success the new state and the payments owed, on failure the error with
/// the state unchanged.
pub open spec fn handled(
    before: MarketModel,
    after: MarketModel,
    r: Result<Vec<Payment>, ContractError>,
    expected: Result<(MarketModel, Seq<Payment>), ContractError>,
) -> bool {
    match expected {
        Ok((m, payments)) => after == m && (r matches Ok(v) && v@ == payments),
        Err(e) => after == before && r == Err::<Vec<Payment>, ContractError>(e),
    }
}

/// The position of `nft_address` among the registered collections.
pub(crate) fn find_collection(collections: &Vec<Collection>, nft_address: &String) -> (r: Option<usize>)
    ensures
        match r {
            Some(i) => first_match(collections@, collection_is(nft_address@)) == Some(i as int) && i < collections@.len(),
            None => first_match(collections@, collection_is(nft_address@)) is None,
        },
{
    let n = collections.len();
    for i in 0..n
        invariant
            n == collections@.len(),
            forall|j: int| 0 <= j < i ==> !collection_is(nft_address@)(collections@[j]),
    {
        if collections[i].nft_address == *nft_address {
            proof {
                lemma_first_match_at(collections@, collection_is(nft_address@), i as int);
            }
            return Some(i);
        }
    }
    None
}

/// The position of `denom` among the accepted native coins.
fn find_coin(coins: &Vec<String>, denom: &String) -> (r: Option<usize>)
    ensures
        match r {
            Some(i) => first_match(coins@, coin_is(denom@)) == Some(i as int) && i < coins@.len(),
            None => first_match(coins@, coin_is(denom@)) is None,
        },
{
    let n = coins.len();
    for i in 0..n
        invariant
            n == coins@.len(),
            forall|j: int| 0 <= j < i ==> !coin_is(denom@)(coins@[j]),
    {
        if coins[i] == *denom {
            proof {
                lemma_first_match_at(coins@, coin_is(denom@), i as int);
            }
            return Some(i);
        }
    }
    None
}

/// The position of the cw20 token with symbol `symbol`.
fn find_token_by_symbol(tokens: &Vec<TokenInfo>, symbol: &String) -> (r: Option<usize>)
    ensures
        match r {
            Some(i) => first_match(tokens@, token_symbol_is(symbol@)) == Some(i as int) && i < tokens@.len(),
            None => first_match(tokens@, token_symbol_is(symbol@)) is None,
        },
{
    let n = tokens.len();
    for i in 0..n
        invariant
            n == tokens@.len(),
            forall|j: int| 0 <= j < i ==> !token_symbol_is(symbol@)(tokens@[j]),
    {
        if tokens[i].symbol == *symbol {
            proof {
                lemma_first_match_at(tokens@, token_symbol_is(symbol@), i as int);
            }
            return Some(i);
        }
    }
    None
}

/// The position of the cw20 token whose contract is `address`.
fn find_token_by_address(tokens: &Vec<TokenInfo>, address: &String) -> (r: Option<usize>)
    ensures
        match r {
            Some(i) => first_match(tokens@, token_address_is(address@)) == Some(i as int) && i < tokens@.len(),
            None => first_match(tokens@, token_address_is(address@)) is None,
        },
{
    let n = tokens.len();
    for i in 0..n
        invariant
            n == tokens@.len(),
            forall|j: int| 0 <= j < i ==> !token_address_is(address@)(tokens@[j]),
    {
        if tokens[i].address == *address {
            proof {
                lemma_first_match_at(tokens@, token_address_is(address@), i as int);
            }
            return Some(i);
        }
    }
    None
}

/// The position of the ask for token `token_id` of `collection`.
pub(crate) fn find_ask(asks: &Vec<Ask>, collection: &String, token_id: &String) -> (r: Option<usize>)
    ensures
        match r {
            Some(i) => first_match(asks@, ask_is(collection@, token_id@)) == Some(i as int) && i < asks@.len(),
            None => first_match(asks@, ask_is(collection@, token_id@)) is None,
        },
{
    let n = asks.len();
    for i in 0..n
        invariant
            n == asks@.len(),
            forall|j: int| 0 <= j < i ==> !ask_is(collection@, token_id@)(asks@[j]),
    {
        if asks[i].collection == *collection && asks[i].token_id == *token_id {
            proof {
                lemma_first_match_at(asks@, ask_is(collection@, token_id@), i as int);
            }
            return Some(i);
        }
    }
    None
}

/// The position of `bidder`'s bid on token `token_id` of `collection`.
fn find_bid(bids: &Vec<Bid>, collection: &String, token_id: &String, bidder: &String) -> (r: Option<usize>)
    ensures
        match r {
            Some(i) => first_match(bids@, bid_is(collection@, token_id@, bidder@)) == Some(i as int) && i < bids@.len(),
            None => first_match(bids@, bid_is(collection@, token_id@, bidder@)) is None,
        },
{
    let n = bids.len();
    for i in 0..n
        invariant
            n == bids@.len(),
            forall|j: int| 0 <= j < i ==> !bid_is(collection@, token_id@, bidder@)(bids@[j]),
    {
        if bids[i].collection == *collection && bids[i].token_id == *token_id && bids[i].bidder == *bidder {
            proof {
                lemma_first_match_at(bids@, bid_is(collection@, token_id@, bidder@), i as int);
            }
            return Some(i);
        }
    }
    None
}

/// The position of `bidder`'s bid on the whole of `collection`.
pub(crate) fn find_collection_bid(bids: &Vec<CollectionBid>, collection: &String, bidder: &String) -> (r: Option<usize>)
    ensures
        match r {
            Some(i) => first_match(bids@, collection_bid_is(collection@, bidder@)) == Some(i as int) && i < bids@.len(),
            None => first_match(bids@, collection_bid_is(collection@, bidder@)) is None,
        },
{
    let n = bids.len();
    for i in 0..n
        invariant
            n == bids@.len(),
            forall|j: int| 0 <= j < i ==> !collection_bid_is(collection@, bidder@)(bids@[j]),
    {
        if bids[i].collection == *collection && bids[i].bidder == *bidder {
            proof {
                lemma_first_match_at(bids@, collection_bid_is(collection@, bidder@), i as int);
            }
            return Some(i);
        }
    }
    None
}


proof fn lemma_portion_sum_take(members: Seq<UserInfo>, k: int)
    requires
        0 <= k < members.len(),
    ensures
        portion_sum(members.take(k + 1)) == portion_sum(members.take(k)) + members[k].portion.atomics,
{
    assert(members.take(k + 1).drop_last() =~= members.take(k));
}

proof fn lemma_portion_sum_prefix(members: Seq<UserInfo>, k: int)
    requires
        0 <= k <= members.len(),
    ensures
        portion_sum(members) >= portion_sum(members.take(k)),
    decreases members.len() - k,
{
    if k < members.len() {
        lemma_portion_sum_take(members, k);
        lemma_portion_sum_prefix(members, k + 1);
    } else {
        assert(members.take(k) =~= members);
    }
}

/// Whether a royalty rule takes at most the whole price and gives its
/// members at most the whole royalty.
pub fn check_royalty(royalty_portion: Decimal, members: &Vec<UserInfo>) -> (b: bool)
    ensures
        b == valid_royalty(royalty_portion, members@),
{
    if royalty_portion.atomics > DECIMAL_FRACTIONAL {
        return false;
    }
    let mut sum: u128 = 0;
    let n = members.len();
    assert(members@.take(0) =~= Seq::<UserInfo>::empty());
    for i in 0..n
        invariant
            n == members@.len(),
            sum == portion_sum(members@.take(i as int)),
            sum <= DECIMAL_FRACTIONAL,
    {
        proof {
            lemma_portion_sum_take(members@, i as int);
        }
        let p = members[i].portion.atomics;
        if p > DECIMAL_FRACTIONAL - sum {
            proof {
                lemma_portion_sum_prefix(members@, i + 1);
            }
            return false;
        }
        sum = sum + p;
    }
    assert(members@.take(n as int) =~= members@);
    true
}

impl Market {
    /// A new marketplace managed by `owner` and `admin`.
    pub fn instantiate(owner: String, admin: String) -> (m: Market)
        ensures
            m@ == instantiated(owner, admin),
    {
        let m = Market {
            owner,
            admin,
            collections: Vec::new(),
            coins: Vec::new(),
            tokens: Vec::new(),
            asks: Vec::new(),
            bids: Vec::new(),
            collection_bids: Vec::new(),
            sales: Vec::new(),
        };
        assert(m@ =~= instantiated(owner, admin));
        m
    }

    fn sender_is_manager(&self, sender: &String) -> (b: bool)
        ensures
            b == is_manager(self@, *sender),
    {
        self.owner == *sender || self.admin == *sender
    }

    /// Registers a collection, or replaces the royalty rule of a registered one.
    pub fn add_collection(
        &mut self,
        info: &MessageInfo,
        royalty_portion: Decimal,
        nft_address: String,
        members: Vec<UserInfo>,
    ) -> (r: Result<Vec<Payment>, ContractError>)
        ensures
            handled(
                old(self)@,
                final(self)@,
                r,
                add_collection_step(old(self)@, info.sender, royalty_portion, nft_address, members),
            ),
    {
        let ghost m0 = self@;
        if !self.sender_is_manager(&info.sender) {
            return Err(ContractError::Unauthorized);
        }
        if !check_royalty(royalty_portion, &members) {
            return Err(ContractError::InvalidPortion);
        }
        let found = find_collection(&self.collections, &nft_address);
        let c = Collection { nft_address, royalty_portion, members };
        match found {
            Some(i) => {
                self.collections.set(i, c);
            },
            None => {
                self.collections.push(c);
            },
        }
        assert(self@ =~= add_collection_step(m0, info.sender, royalty_portion, nft_address, members)->Ok_0.0);
        Ok(Vec::new())
    }

    /// Accepts a native coin as a currency.
    pub fn add_coin(&mut self, info: &MessageInfo, symbol: String) -> (r: Result<Vec<Payment>, ContractError>)
        ensures
            handled(old(self)@, final(self)@, r, add_coin_step(old(self)@, info.sender, symbol)),
    {
        let ghost m0 = self@;
        if !self.sender_is_manager(&info.sender) {
            return Err(ContractError::Unauthorized);
        }
        match find_coin(&self.coins, &symbol) {
            Some(_) => {},
            None => {
                self.coins.push(symbol);
            },
        }
        assert(self@ =~= add_coin_step(m0, info.sender, symbol)->Ok_0.0);
        Ok(Vec::new())
    }

    /// Accepts the cw20 token at `address` as the currency `symbol`.
    pub fn add_token_address(&mut self, info: &MessageInfo, symbol: String, address: String) -> (r: Result<
        Vec<Payment>,
        ContractError,
    >)
        ensures
            handled(old(self)@, final(self)@, r, add_token_step(old(self)@, info.sender, symbol, address)),
    {
        let ghost m0 = self@;
        if !self.sender_is_manager(&info.sender) {
            return Err(ContractError::Unauthorized);
        }
        let found = find_token_by_symbol(&self.tokens, &symbol);
        let t = TokenInfo { symbol, address };
        match found {
            Some(i) => {
                self.tokens.set(i, t);
            },
            None => {
                self.tokens.push(t);
            },
        }
        assert(self@ =~= add_token_step(m0, info.sender, symbol, address)->Ok_0.0);
        Ok(Vec::new())
    }

    fn accepts_currency(&self, denom: &String, token_address: &Option<String>) -> (b: bool)
        ensures
            b == currency_accepted(self@, *denom, *token_address),
    {
        match token_address {
            None => find_coin(&self.coins, denom).is_some(),
            Some(addr) => match find_token_by_address(&self.tokens, addr) {
                Some(i) => self.tokens[i].symbol == *denom,
                None => false,
            },
        }
    }

    /// Lists the token that the collection `info.sender` has just sent.
    pub fn receive_nft(&mut self, now: u64, info: &MessageInfo, msg: Cw721ReceiveMsg) -> (r: Result<
        Vec<Payment>,
        ContractError,
    >)
        ensures
            handled(old(self)@, final(self)@, r, list_step(old(self)@, now, info.sender, msg)),
    {
        let ghost m0 = self@;
        if find_collection(&self.collections, &info.sender).is_none() {
            return Err(ContractError::CollectionNotFound);
        }
        if msg.msg.expire <= now {
            return Err(ContractError::InvalidExpiration);
        }
        if !self.accepts_currency(&msg.msg.list_price.denom, &msg.msg.token_address) {
            return Err(ContractError::UnknownCurrency);
        }
        if find_ask(&self.asks, &info.sender, &msg.token_id).is_some() {
            return Err(ContractError::AskExists);
        }
        let ghost m = msg;
        let ask = Ask {
            collection: info.sender.clone(),
            token_id: msg.token_id,
            seller: msg.sender,
            list_price: msg.msg.list_price,
            expires_at: msg.msg.expire,
            token_address: msg.msg.token_address,
        };
        self.asks.push(ask);
        assert(self@ =~= list_step(m0, now, info.sender, m)->Ok_0.0);
        Ok(Vec::new())
    }
}


impl Bid {
    /// A copy of this bid.
    pub fn duplicate(&self) -> (r: Bid)
        ensures
            r == *self,
    {
        Bid {
            collection: self.collection.clone(),
            token_id: self.token_id.clone(),
            bidder: self.bidder.clone(),
            seller: self.seller.clone(),
            price: self.price.duplicate(),
            token_address: clone_address(&self.token_address),
            expires_at: self.expires_at,
        }
    }
}

impl CollectionBid {
    /// A copy of this collection bid.
    pub fn duplicate(&self) -> (r: CollectionBid)
        ensures
            r == *self,
    {
        CollectionBid {
            collection: self.collection.clone(),
            bidder: self.bidder.clone(),
            price: self.price.duplicate(),
            token_address: clone_address(&self.token_address),
            expires_at: self.expires_at,
        }
    }
}

/// What returning `b`'s escrow owes its bidder.
fn refund_payment(b: &Bid) -> (p: Payment)
    ensures
        p == refund(*b),
{
    Payment::Funds {
        recipient: b.bidder.clone(),
        asset: b.price.duplicate(),
        token_address: clone_address(&b.token_address),
    }
}

/// The bids on token `token_id` of `collection` (where `on`), or all the
/// others (where not), in order.
fn filter_bids(bids: &Vec<Bid>, collection: &String, token_id: &String, on: bool) -> (r: Vec<Bid>)
    ensures
        on ==> r@ == bids@.filter(bid_on(collection@, token_id@)),
        !on ==> r@ == bids@.filter(not_bid_on(collection@, token_id@)),
{
    let ghost p = if on { bid_on(collection@, token_id@) } else { not_bid_on(collection@, token_id@) };
    let mut r: Vec<Bid> = Vec::new();
    let n = bids.len();
    assert(bids@.take(0) =~= Seq::<Bid>::empty());
    for i in 0..n
        invariant
            n == bids@.len(),
            p == (if on { bid_on(collection@, token_id@) } else { not_bid_on(collection@, token_id@) }),
            r@ == bids@.take(i as int).filter(p),
    {
        assert(bids@.take(i + 1).drop_last() =~= bids@.take(i as int));
        let b = &bids[i];
        let is_on = b.collection == *collection && b.token_id == *token_id;
        proof {
            assert(bids@.take(i + 1).last() == bids@[i as int]);
            assert(p(bids@[i as int]) == (is_on == on));
            reveal_with_fuel(Seq::filter, 1);
        }
        if is_on == on {
            r.push(b.duplicate());
        }
        assert(r@ =~= bids@.take(i + 1).filter(p));
    }
    assert(bids@.take(n as int) =~= bids@);
    r
}

/// A copy of a list of bids.
fn copy_bids(bids: &Vec<Bid>) -> (r: Vec<Bid>)
    ensures
        r@ == bids@,
{
    let mut r: Vec<Bid> = Vec::new();
    let n = bids.len();
    for i in 0..n
        invariant
            n == bids@.len(),
            r@ == bids@.take(i as int),
    {
        r.push(bids[i].duplicate());
        assert(r@ =~= bids@.take(i + 1));
    }
    assert(bids@.take(n as int) =~= bids@);
    r
}

impl Market {
    /// Sells the ask at `i` to `buyer` for `price`, refunding `refunded`.
    fn settle_sale(
        &mut self,
        i: usize,
        buyer: String,
        price: Asset,
        token_address: Option<String>,
        refunded: Vec<Bid>,
        now: u64,
    ) -> (r: Result<Vec<Payment>, ContractError>)
        requires
            i < old(self)@.asks.len(),
        ensures
            handled(old(self)@, final(self)@, r, sale(old(self)@, i as int, buyer, price, token_address, refunded@, now)),
    {
        let ghost m0 = self@;
        let ci = match find_collection(&self.collections, &self.asks[i].collection) {
            None => return Err(ContractError::CollectionNotFound),
            Some(ci) => ci,
        };
        let (mut royalties, rest) = match split_price(&self.collections[ci], &price, &token_address) {
            None => return Err(ContractError::Overflow),
            Some(x) => x,
        };
        let ghost royalty_seq = royalties@;
        let mut payments: Vec<Payment> = Vec::new();
        let n = refunded.len();
        for k in 0..n
            invariant
                n == refunded@.len(),
                payments@ == refunds(refunded@.take(k as int)),
        {
            payments.push(refund_payment(&refunded[k]));
            assert(payments@ =~= refunds(refunded@.take(k + 1)));
        }
        assert(refunded@.take(n as int) =~= refunded@);
        payments.append(&mut royalties);
        let ask = self.asks.remove(i);
        payments.push(Payment::Funds {
            recipient: ask.seller.clone(),
            asset: Asset { denom: price.denom.clone(), amount: rest },
            token_address: clone_address(&token_address),
        });
        payments.push(Payment::Nft {
            collection: ask.collection.clone(),
            recipient: buyer.clone(),
            token_id: ask.token_id.clone(),
        });
        let kept = filter_bids(&self.bids, &ask.collection, &ask.token_id, false);
        self.bids = kept;
        self.sales.push(SaleRecord {
            collection: ask.collection,
            token_id: ask.token_id,
            seller: ask.seller,
            buyer,
            price,
            token_address,
            time: now,
        });
        let ghost expected = sale(m0, i as int, buyer, price, token_address, refunded@, now);
        assert(payments@ =~= expected->Ok_0.1);
        assert(self@ =~= expected->Ok_0.0);
        Ok(payments)
    }

    /// Records an offer of `price` (already received) by `bidder`, or buys
    /// at once for a fixed-price offer.
    fn place_bid(
        &mut self,
        now: u64,
        bidder: String,
        nft_address: String,
        expire: u64,
        sale_type: SaleType,
        token_id: Option<String>,
        price: Asset,
        token_address: Option<String>,
    ) -> (r: Result<Vec<Payment>, ContractError>)
        ensures
            handled(
                old(self)@,
                final(self)@,
                r,
                bid_step(old(self)@, now, bidder, nft_address, expire, sale_type, token_id, price, token_address),
            ),
    {
        let ghost m0 = self@;
        if expire <= now {
            return Err(ContractError::InvalidExpiration);
        }
        match sale_type {
            SaleType::CollectionBid => {
                if find_collection(&self.collections, &nft_address).is_none() {
                    return Err(ContractError::CollectionNotFound);
                }
                if find_collection_bid(&self.collection_bids, &nft_address, &bidder).is_some() {
                    return Err(ContractError::BidExists);
                }
                self.collection_bids.push(
                    CollectionBid { collection: nft_address, bidder, price, token_address, expires_at: expire },
                );
                assert(self@ =~= bid_step(m0, now, bidder, nft_address, expire, sale_type, token_id, price, token_address)->Ok_0.0);
                Ok(Vec::new())
            },
            _ => {
                let tid = match token_id {
                    None => return Err(ContractError::TokenIdRequired),
                    Some(t) => t,
                };
                let i = match find_ask(&self.asks, &nft_address, &tid) {
                    None => return Err(ContractError::AskNotFound),
                    Some(i) => i,
                };
                if self.asks[i].expires_at <= now {
                    return Err(ContractError::AskExpired);
                }
                match sale_type {
                    SaleType::Auction => {
                        if find_bid(&self.bids, &nft_address, &tid, &bidder).is_some() {
                            return Err(ContractError::BidExists);
                        }
                        let seller = self.asks[i].seller.clone();
                        self.bids.push(Bid {
                            collection: nft_address,
                            token_id: tid,
                            bidder,
                            seller,
                            price,
                            token_address,
                            expires_at: expire,
                        });
                        assert(self@ =~= bid_step(m0, now, bidder, nft_address, expire, sale_type, token_id, price, token_address)->Ok_0.0);
                        Ok(Vec::new())
                    },
                    _ => {
                        if !self.same_as_list_price(i, &price, &token_address) {
                            return Err(ContractError::PriceMismatch);
                        }
                        let refunded = filter_bids(&self.bids, &nft_address, &tid, true);
                        self.settle_sale(i, bidder, price, token_address, refunded, now)
                    },
                }
            },
        }
    }

    fn same_as_list_price(&self, i: usize, price: &Asset, token_address: &Option<String>) -> (b: bool)
        requires
            i < self@.asks.len(),
        ensures
            b == same_price(*price, *token_address, self@.asks[i as int].list_price, self@.asks[i as int].token_address),
    {
        let ask = &self.asks[i];
        if price.denom != ask.list_price.denom || price.amount != ask.list_price.amount {
            return false;
        }
        match (token_address, &ask.token_address) {
            (None, None) => true,
            (Some(x), Some(y)) => *x == *y,
            _ => false,
        }
    }

    /// An offer paid in cw20 tokens that the token contract `info.sender`
    /// reports receiving.
    pub fn receive(&mut self, now: u64, info: &MessageInfo, msg: Cw20ReceiveMsg) -> (r: Result<
        Vec<Payment>,
        ContractError,
    >)
        ensures
            handled(old(self)@, final(self)@, r, receive_step(old(self)@, now, info.sender, msg)),
    {
        let k = match find_token_by_address(&self.tokens, &info.sender) {
            None => return Err(ContractError::UnknownCurrency),
            Some(k) => k,
        };
        let price = Asset { denom: self.tokens[k].symbol.clone(), amount: msg.amount };
        let terms = msg.msg;
        self.place_bid(
            now,
            msg.sender,
            terms.nft_address,
            terms.expire,
            terms.sale_type,
            terms.token_id,
            price,
            Some(info.sender.clone()),
        )
    }

    /// An offer paid in the native coin sent along with the message.
    pub fn set_bid_coin(
        &mut self,
        now: u64,
        info: &MessageInfo,
        nft_address: String,
        expire: u64,
        sale_type: SaleType,
        token_id: Option<String>,
        list_price: Asset,
    ) -> (r: Result<Vec<Payment>, ContractError>)
        ensures
            handled(
                old(self)@,
                final(self)@,
                r,
                bid_coin_step(old(self)@, now, *info, nft_address, expire, sale_type, token_id, list_price),
            ),
    {
        let funds_ok = info.funds.len() == 1 && info.funds[0].denom == list_price.denom
            && info.funds[0].amount == list_price.amount;
        if !funds_ok {
            return Err(ContractError::InvalidFunds);
        }
        if find_coin(&self.coins, &list_price.denom).is_none() {
            return Err(ContractError::UnknownCurrency);
        }
        self.place_bid(now, info.sender.clone(), nft_address, expire, sale_type, token_id, list_price, None)
    }

    /// The sender takes back its bid on a token and the escrowed funds.
    pub fn remove_bid(&mut self, info: &MessageInfo, nft_address: String, token_id: String) -> (r: Result<
        Vec<Payment>,
        ContractError,
    >)
        ensures
            handled(old(self)@, final(self)@, r, remove_bid_step(old(self)@, info.sender, nft_address, token_id)),
    {
        let ghost m0 = self@;
        let j = match find_bid(&self.bids, &nft_address, &token_id, &info.sender) {
            None => return Err(ContractError::BidNotFound),
            Some(j) => j,
        };
        let b = self.bids.remove(j);
        let mut payments: Vec<Payment> = Vec::new();
        payments.push(refund_payment(&b));
        let ghost expected = remove_bid_step(m0, info.sender, nft_address, token_id);
        assert(payments@ =~= expected->Ok_0.1);
        assert(self@ =~= expected->Ok_0.0);
        Ok(payments)
    }

    /// The sender takes back its collection bid and the escrowed funds.
    pub fn remove_collection_bid(&mut self, info: &MessageInfo, nft_address: String) -> (r: Result<
        Vec<Payment>,
        ContractError,
    >)
        ensures
            handled(old(self)@, final(self)@, r, remove_collection_bid_step(old(self)@, info.sender, nft_address)),
    {
        let ghost m0 = self@;
        let j = match find_collection_bid(&self.collection_bids, &nft_address, &info.sender) {
            None => return Err(ContractError::BidNotFound),
            Some(j) => j,
        };
        let b = self.collection_bids.remove(j);
        let mut payments: Vec<Payment> = Vec::new();
        payments.push(Payment::Funds {
            recipient: b.bidder,
            asset: b.price,
            token_address: b.token_address,
        });
        let ghost expected = remove_collection_bid_step(m0, info.sender, nft_address);
        assert(payments@ =~= expected->Ok_0.1);
        assert(self@ =~= expected->Ok_0.0);
        Ok(payments)
    }

    /// The seller takes back a listed token; every bid on it is refunded.
    pub fn withdraw_nft(&mut self, info: &MessageInfo, nft_address: String, token_id: String) -> (r: Result<
        Vec<Payment>,
        ContractError,
    >)
        ensures
            handled(old(self)@, final(self)@, r, withdraw_step(old(self)@, info.sender, nft_address, token_id)),
    {
        let ghost m0 = self@;
        let i = match find_ask(&self.asks, &nft_address, &token_id) {
            None => return Err(ContractError::AskNotFound),
            Some(i) => i,
        };
        if info.sender != self.asks[i].seller {
            return Err(ContractError::Unauthorized);
        }
        let refunded = filter_bids(&self.bids, &nft_address, &token_id, true);
        let mut payments: Vec<Payment> = Vec::new();
        let n = refunded.len();
        for k in 0..n
            invariant
                n == refunded@.len(),
                payments@ == refunds(refunded@.take(k as int)),
        {
            payments.push(refund_payment(&refunded[k]));
            assert(payments@ =~= refunds(refunded@.take(k + 1)));
        }
        assert(refunded@.take(n as int) =~= refunded@);
        let ask = self.asks.remove(i);
        payments.push(Payment::Nft { collection: ask.collection, recipient: ask.seller, token_id: ask.token_id });
        let kept = filter_bids(&self.bids, &nft_address, &token_id, false);
        self.bids = kept;
        let ghost expected = withdraw_step(m0, info.sender, nft_address, token_id);
        assert(payments@ =~= expected->Ok_0.1);
        assert(self@ =~= expected->Ok_0.0);
        Ok(payments)
    }

    /// The seller sells a listed token to the bidder of an unexpired bid.
    pub fn accept_bid(
        &mut self,
        now: u64,
        info: &MessageInfo,
        nft_address: String,
        token_id: String,
        bidder: String,
    ) -> (r: Result<Vec<Payment>, ContractError>)
        ensures
            handled(
                old(self)@,
                final(self)@,
                r,
                accept_bid_step(old(self)@, now, info.sender, nft_address, token_id, bidder),
            ),
    {
        let i = match find_ask(&self.asks, &nft_address, &token_id) {
            None => return Err(ContractError::AskNotFound),
            Some(i) => i,
        };
        if info.sender != self.asks[i].seller {
            return Err(ContractError::Unauthorized);
        }
        let j = match find_bid(&self.bids, &nft_address, &token_id, &bidder) {
            None => return Err(ContractError::BidNotFound),
            Some(j) => j,
        };
        if self.bids[j].expires_at <= now {
            return Err(ContractError::BidExpired);
        }
        let b = self.bids[j].duplicate();
        let mut others = copy_bids(&self.bids);
        others.remove(j);
        let refunded = filter_bids(&others, &nft_address, &token_id, true);
        self.settle_sale(i, b.bidder, b.price, b.token_address, refunded, now)
    }

    /// The seller sells a listed token to the bidder of an unexpired
    /// collection bid on its collection.
    pub fn accept_collection_bid(
        &mut self,
        now: u64,
        info: &MessageInfo,
        nft_address: String,
        token_id: String,
        bidder: String,
    ) -> (r: Result<Vec<Payment>, ContractError>)
        ensures
            handled(
                old(self)@,
                final(self)@,
                r,
                accept_collection_bid_step(old(self)@, now, info.sender, nft_address, token_id, bidder),
            ),
    {
        let ghost m0 = self@;
        let i = match find_ask(&self.asks, &nft_address, &token_id) {
            None => return Err(ContractError::AskNotFound),
            Some(i) => i,
        };
        if info.sender != self.asks[i].seller {
            return Err(ContractError::Unauthorized);
        }
        let k = match find_collection_bid(&self.collection_bids, &nft_address, &bidder) {
            None => return Err(ContractError::BidNotFound),
            Some(k) => k,
        };
        if self.collection_bids[k].expires_at <= now {
            return Err(ContractError::BidExpired);
        }
        let b = self.collection_bids[k].duplicate();
        let refunded = filter_bids(&self.bids, &nft_address, &token_id, true);
        let r = self.settle_sale(i, b.bidder, b.price, b.token_address, refunded, now);
        match r {
            Ok(payments) => {
                self.collection_bids.remove(k);
                let ghost expected = accept_collection_bid_step(m0, now, info.sender, nft_address, token_id, bidder);
                assert(self@ =~= expected->Ok_0.0);
                Ok(payments)
            },
            Err(e) => Err(e),
        }
    }
}


/// `after` and `r` are what `expected` says a handled message gives: on
/// success the new state and the messages that pay what is owed, on failure
/// the error with the state unchanged.
pub open spec fn responded(
    before: MarketModel,
    after: MarketModel,
    r: Result<Response, ContractError>,
    expected: Result<(MarketModel, Seq<Payment>), ContractError>,
) -> bool {
    match expected {
        Ok((m, payments)) => after == m && (r matches Ok(resp) && response_msgs(resp) == payment_msgs(payments)),
        Err(e) => after == before && r == Err::<Response, ContractError>(e),
    }
}

/// A new marketplace managed by the message's owner and admin, and an
/// empty response.
pub fn instantiate(msg: InstantiateMsg) -> (r: (Market, Response))
    ensures
        r.0@ == instantiated(msg.owner, msg.admin),
        r.1.messages@.len() == 0,
{
    let m = Market::instantiate(msg.owner, msg.admin);
    let resp = Response { messages: Vec::new() };
    (m, resp)
}

impl Market {
    /// Handles `msg`, sent by `info.sender` at time `now` (in seconds).
    pub fn execute(&mut self, now: u64, info: &MessageInfo, msg: ExecuteMsg) -> (r: Result<Response, ContractError>)
        ensures
            responded(old(self)@, final(self)@, r, execute_step(old(self)@, now, *info, msg)),
    {
        let r = match msg {
            ExecuteMsg::AddCollection { royalty_portion, nft_address, members } =>
                self.add_collection(info, royalty_portion, nft_address, members),
            ExecuteMsg::AddCoin { symbol } => self.add_coin(info, symbol),
            ExecuteMsg::AddTokenAddress { symbol, address } => self.add_token_address(info, symbol, address),
            ExecuteMsg::ReceiveNft(m) => self.receive_nft(now, info, m),
            ExecuteMsg::Receive(m) => self.receive(now, info, m),
            ExecuteMsg::SetBidCoin { nft_address, expire, sale_type, token_id, list_price } =>
                self.set_bid_coin(now, info, nft_address, expire, sale_type, token_id, list_price),
            ExecuteMsg::RemoveBid { nft_address, token_id } => self.remove_bid(info, nft_address, token_id),
            ExecuteMsg::RemoveCollectionBid { nft_address } => self.remove_collection_bid(info, nft_address),
            ExecuteMsg::WithdrawNft { nft_address, token_id } => self.withdraw_nft(info, nft_address, token_id),
            ExecuteMsg::AcceptBid { nft_address, token_id, bidder } =>
                self.accept_bid(now, info, nft_address, token_id, bidder),
            ExecuteMsg::AcceptCollectionBid { nft_address, token_id, bidder } =>
                self.accept_collection_bid(now, info, nft_address, token_id, bidder),
        };
        match r {
            Ok(payments) => Ok(payments_to_response(&payments)),
            Err(e) => Err(e),
        }
    }
}


impl Market {
    pub(crate) fn owner_admin(&self) -> (r: (&String, &String))
        ensures
            *r.0 == self@.owner,
            *r.1 == self@.admin,
    {
        (&self.owner, &self.admin)
    }

    pub(crate) fn ask_list(&self) -> (r: &Vec<Ask>)
        ensures
            r@ == self@.asks,
    {
        &self.asks
    }

    pub(crate) fn bid_list(&self) -> (r: &Vec<Bid>)
        ensures
            r@ == self@.bids,
    {
        &self.bids
    }

    pub(crate) fn collection_bid_list(&self) -> (r: &Vec<CollectionBid>)
        ensures
            r@ == self@.collection_bids,
    {
        &self.collection_bids
    }

    pub(crate) fn sale_list(&self) -> (r: &Vec<SaleRecord>)
        ensures
            r@ == self@.sales,
    {
        &self.sales
    }

    pub(crate) fn collection_list(&self) -> (r: &Vec<Collection>)
        ensures
            r@ == self@.collections,
    {
        &self.collections
    }
}


/// Everything a marketplace records, field by field, for storing it
/// between messages.
pub struct MarketParts {
    pub owner: String,
    pub admin: String,
    pub collections: Vec<Collection>,
    pub coins: Vec<String>,
    pub tokens: Vec<TokenInfo>,
    pub asks: Vec<Ask>,
    pub bids: Vec<Bid>,
    pub collection_bids: Vec<CollectionBid>,
    pub sales: Vec<SaleRecord>,
}

/// The state that stored parts describe.
pub open spec fn parts_model(p: MarketParts) -> MarketModel {
    MarketModel {
        owner: p.owner,
        admin: p.admin,
        collections: p.collections@,
        coins: p.coins@,
        tokens: p.tokens@,
        asks: p.asks@,
        bids: p.bids@,
        collection_bids: p.collection_bids@,
        sales: p.sales@,
    }
}

impl Market {
    /// The marketplace that stored parts describe.
    pub fn from_parts(p: MarketParts) -> (m: Market)
        ensures
            m@ == parts_model(p),
    {
        let m = Market {
            owner: p.owner,
            admin: p.admin,
            collections: p.collections,
            coins: p.coins,
            tokens: p.tokens,
            asks: p.asks,
            bids: p.bids,
            collection_bids: p.collection_bids,
            sales: p.sales,
        };
        assert(m@ =~= parts_model(p));
        m
    }

    /// The marketplace's records, field by field.
    pub fn into_parts(self) -> (p: MarketParts)
        ensures
            parts_model(p) == self@,
    {
        let p = MarketParts {
            owner: self.owner,
            admin: self.admin,
            collections: self.collections,
            coins: self.coins,
            tokens: self.tokens,
            asks: self.asks,
            bids: self.bids,
            collection_bids: self.collection_bids,
            sales: self.sales,
        };
        assert(parts_model(p) =~= self@);
        p
    }
}

} // verus!
