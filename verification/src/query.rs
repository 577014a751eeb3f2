//! Reading the marketplace: single records, and pages of records in the
//! order they were stored.
use vstd::prelude::*;

use crate::encode::clone_address;
use crate::market::{find_ask, find_collection_bid, Market};
use crate::model::{ask_is, collection_bid_is, first_match, lemma_first_match_at};
use crate::types::{
    Ask, Bid, CollectionBid, CollectionBidOffset, CollectionOffset, CollectionOffsetBid,
    SaleHistoryOffset, SaleHistoryOffsetByUser, SaleRecord, State,
};

verus! {

/// The page size where a query names none.
pub const DEFAULT_LIMIT: u32 = 10;

/// The largest page a query returns.
pub const MAX_LIMIT: u32 = 30;

/// The page size for a requested `limit`.
pub open spec fn page_size(limit: Option<u32>) -> nat {
    let l = match limit {
        Some(l) => l,
        None => DEFAULT_LIMIT,
    };
    if l < MAX_LIMIT {
        l as nat
    } else {
        MAX_LIMIT as nat
    }
}

/// A record that queries select and page through.
pub trait Listing: Sized {
    /// What a query selects records by.
    type Filter;

    /// The record a page starts after.
    type Cursor;

    spec fn selected(self, f: Self::Filter) -> bool;

    spec fn at_cursor(self, c: Self::Cursor) -> bool;

    fn is_selected(&self, f: &Self::Filter) -> (b: bool)
        ensures
            b == self.selected(*f),
    ;

    fn is_at_cursor(&self, c: &Self::Cursor) -> (b: bool)
        ensures
            b == self.at_cursor(*c),
    ;

    fn duplicate_record(&self) -> (r: Self)
        ensures
            r == *self,
    ;
}

/// The records of `items` that `f` selects, in order.
pub open spec fn selection<A: Listing>(items: Seq<A>, f: A::Filter) -> Seq<A> {
    items.filter(|a: A| a.selected(f))
}

/// Where a page of `selected` starts: at the beginning, just after the
/// cursor's record, or (where the cursor matches no record) at the end.
pub open spec fn page_start<A: Listing>(selected: Seq<A>, cursor: Option<A::Cursor>) -> int {
    match cursor {
        None => 0,
        Some(c) => match first_match(selected, |a: A| a.at_cursor(c)) {
            Some(i) => i + 1,
            None => selected.len() as int,
        },
    }
}

/// A page of at most `size` of the records `f` selects, starting after
/// `cursor`'s record.
pub open spec fn page<A: Listing>(items: Seq<A>, f: A::Filter, cursor: Option<A::Cursor>, size: nat) -> Seq<A> {
    let selected = selection(items, f);
    let start = page_start(selected, cursor);
    let end = if start + size < selected.len() { start + size } else { selected.len() as int };
    selected.subrange(start, end)
}

/// The page after a record that is the only one its cursor matches starts
/// right after that record: paging from the last record of one page
/// continues where that page ended, skipping nothing and repeating nothing.
pub proof fn law_next_page_continues<A: Listing>(items: Seq<A>, f: A::Filter, c: A::Cursor, size: nat, k: int)
    requires
        0 <= k < selection(items, f).len(),
        selection(items, f)[k].at_cursor(c),
        forall|j: int| 0 <= j < selection(items, f).len() && j != k ==> !(#[trigger] selection(items, f)[j]).at_cursor(c),
    ensures
        page(items, f, Some(c), size) == selection(items, f).subrange(
            k + 1,
            if k + 1 + size < selection(items, f).len() { k + 1 + size } else { selection(items, f).len() as int },
        ),
{
    let sel = selection(items, f);
    lemma_first_match_at(sel, |a: A| a.at_cursor(c), k);
}

pub(crate) fn select<A: Listing>(items: &Vec<A>, f: &A::Filter) -> (r: Vec<A>)
    ensures
        r@ == selection(items@, *f),
{
    let ghost p = |a: A| a.selected(*f);
    let mut r: Vec<A> = Vec::new();
    let n = items.len();
    assert(items@.take(0) =~= Seq::<A>::empty());
    for i in 0..n
        invariant
            n == items@.len(),
            p == (|a: A| a.selected(*f)),
            r@ == items@.take(i as int).filter(p),
    {
        assert(items@.take(i + 1).drop_last() =~= items@.take(i as int));
        proof {
            assert(items@.take(i + 1).last() == items@[i as int]);
            reveal_with_fuel(Seq::filter, 1);
        }
        if items[i].is_selected(f) {
            r.push(items[i].duplicate_record());
        }
        assert(r@ =~= items@.take(i + 1).filter(p));
    }
    assert(items@.take(n as int) =~= items@);
    r
}

fn find_cursor<A: Listing>(items: &Vec<A>, c: &A::Cursor) -> (r: Option<usize>)
    ensures
        match r {
            Some(i) => first_match(items@, |a: A| a.at_cursor(*c)) == Some(i as int) && i < items@.len(),
            None => first_match(items@, |a: A| a.at_cursor(*c)) is None,
        },
{
    let ghost q = |a: A| a.at_cursor(*c);
    let n = items.len();
    for i in 0..n
        invariant
            n == items@.len(),
            q == (|a: A| a.at_cursor(*c)),
            forall|j: int| 0 <= j < i ==> !q(items@[j]),
    {
        if items[i].is_at_cursor(c) {
            proof {
                lemma_first_match_at(items@, q, i as int);
            }
            return Some(i);
        }
    }
    None
}

/// A page of at most `page_size(limit)` of the records of `items` that `f`
/// selects, starting after `cursor`'s record.
pub fn list_page<A: Listing>(items: &Vec<A>, f: &A::Filter, cursor: &Option<A::Cursor>, limit: Option<u32>) -> (r: Vec<A>)
    ensures
        r@ == page(items@, *f, *cursor, page_size(limit)),
{
    let selected = select(items, f);
    let n = selected.len();
    let start: usize = match cursor {
        None => 0,
        Some(c) => match find_cursor(&selected, c) {
            Some(i) => i + 1,
            None => n,
        },
    };
    let size: u32 = match limit {
        Some(l) => if l < MAX_LIMIT { l } else { MAX_LIMIT },
        None => DEFAULT_LIMIT,
    };
    assert(start == page_start(selected@, *cursor));
    let end: usize = if n - start > size as usize { start + size as usize } else { n };
    let mut r: Vec<A> = Vec::new();
    let mut k = start;
    while k < end
        invariant
            start <= k <= end <= n,
            n == selected@.len(),
            r@ == selected@.subrange(start as int, k as int),
        decreases end - k,
    {
        r.push(selected[k].duplicate_record());
        assert(r@ =~= selected@.subrange(start as int, k + 1));
        k = k + 1;
    }
    r
}


/// What asks are selected by.
pub enum AskFilter {
    Collection(String),
    Seller(String),
}

/// What bids are selected by.
pub enum BidFilter {
    Token(String, String),
    Bidder(String),
    Seller(String),
}

/// What collection bids are selected by.
pub enum CollectionBidFilter {
    Collection(String),
    Bidder(String),
}

/// What sales are selected by.
pub enum SaleFilter {
    Collection(String),
    Token(String, String),
    Buyer(String),
    Seller(String),
}

impl Ask {
    /// A copy of this ask.
    pub fn duplicate(&self) -> (r: Ask)
        ensures
            r == *self,
    {
        Ask {
            collection: self.collection.clone(),
            token_id: self.token_id.clone(),
            seller: self.seller.clone(),
            list_price: self.list_price.duplicate(),
            expires_at: self.expires_at,
            token_address: clone_address(&self.token_address),
        }
    }
}

impl SaleRecord {
    /// A copy of this record.
    pub fn duplicate(&self) -> (r: SaleRecord)
        ensures
            r == *self,
    {
        SaleRecord {
            collection: self.collection.clone(),
            token_id: self.token_id.clone(),
            seller: self.seller.clone(),
            buyer: self.buyer.clone(),
            price: self.price.duplicate(),
            token_address: clone_address(&self.token_address),
            time: self.time,
        }
    }
}

impl Listing for Ask {
    type Filter = AskFilter;

    type Cursor = CollectionOffset;

    open spec fn selected(self, f: AskFilter) -> bool {
        match f {
            AskFilter::Collection(c) => self.collection@ == c@,
            AskFilter::Seller(s) => self.seller@ == s@,
        }
    }

    open spec fn at_cursor(self, c: CollectionOffset) -> bool {
        self.collection@ == c.collection@ && self.token_id@ == c.token_id@
    }

    fn is_selected(&self, f: &AskFilter) -> (b: bool) {
        match f {
            AskFilter::Collection(c) => self.collection == *c,
            AskFilter::Seller(s) => self.seller == *s,
        }
    }

    fn is_at_cursor(&self, c: &CollectionOffset) -> (b: bool) {
        self.collection == c.collection && self.token_id == c.token_id
    }

    fn duplicate_record(&self) -> (r: Ask) {
        self.duplicate()
    }
}

impl Listing for Bid {
    type Filter = BidFilter;

    type Cursor = CollectionOffsetBid;

    open spec fn selected(self, f: BidFilter) -> bool {
        match f {
            BidFilter::Token(c, t) => self.collection@ == c@ && self.token_id@ == t@,
            BidFilter::Bidder(b) => self.bidder@ == b@,
            BidFilter::Seller(s) => self.seller@ == s@,
        }
    }

    open spec fn at_cursor(self, c: CollectionOffsetBid) -> bool {
        self.collection@ == c.collection@ && self.token_id@ == c.token_id@ && self.bidder@ == c.bidder@
    }

    fn is_selected(&self, f: &BidFilter) -> (b: bool) {
        match f {
            BidFilter::Token(c, t) => self.collection == *c && self.token_id == *t,
            BidFilter::Bidder(b) => self.bidder == *b,
            BidFilter::Seller(s) => self.seller == *s,
        }
    }

    fn is_at_cursor(&self, c: &CollectionOffsetBid) -> (b: bool) {
        self.collection == c.collection && self.token_id == c.token_id && self.bidder == c.bidder
    }

    fn duplicate_record(&self) -> (r: Bid) {
        self.duplicate()
    }
}

impl Listing for CollectionBid {
    type Filter = CollectionBidFilter;

    type Cursor = CollectionBidOffset;

    open spec fn selected(self, f: CollectionBidFilter) -> bool {
        match f {
            CollectionBidFilter::Collection(c) => self.collection@ == c@,
            CollectionBidFilter::Bidder(b) => self.bidder@ == b@,
        }
    }

    open spec fn at_cursor(self, c: CollectionBidOffset) -> bool {
        self.collection@ == c.collection@ && self.bidder@ == c.bidder@
    }

    fn is_selected(&self, f: &CollectionBidFilter) -> (b: bool) {
        match f {
            CollectionBidFilter::Collection(c) => self.collection == *c,
            CollectionBidFilter::Bidder(b) => self.bidder == *b,
        }
    }

    fn is_at_cursor(&self, c: &CollectionBidOffset) -> (b: bool) {
        self.collection == c.collection && self.bidder == c.bidder
    }

    fn duplicate_record(&self) -> (r: CollectionBid) {
        self.duplicate()
    }
}

impl Listing for SaleRecord {
    type Filter = SaleFilter;

    type Cursor = SaleHistoryOffsetByUser;

    open spec fn selected(self, f: SaleFilter) -> bool {
        match f {
            SaleFilter::Collection(c) => self.collection@ == c@,
            SaleFilter::Token(c, t) => self.collection@ == c@ && self.token_id@ == t@,
            SaleFilter::Buyer(b) => self.buyer@ == b@,
            SaleFilter::Seller(s) => self.seller@ == s@,
        }
    }

    open spec fn at_cursor(self, c: SaleHistoryOffsetByUser) -> bool {
        self.collection@ == c.collection@ && self.token_id@ == c.token_id@ && self.time == c.time
    }

    fn is_selected(&self, f: &SaleFilter) -> (b: bool) {
        match f {
            SaleFilter::Collection(c) => self.collection == *c,
            SaleFilter::Token(c, t) => self.collection == *c && self.token_id == *t,
            SaleFilter::Buyer(b) => self.buyer == *b,
            SaleFilter::Seller(s) => self.seller == *s,
        }
    }

    fn is_at_cursor(&self, c: &SaleHistoryOffsetByUser) -> (b: bool) {
        self.collection == c.collection && self.token_id == c.token_id && self.time == c.time
    }

    fn duplicate_record(&self) -> (r: SaleRecord) {
        self.duplicate()
    }
}

impl Market {
    /// The marketplace's owner and admin.
    pub fn query_state_info(&self) -> (r: State)
        ensures
            r.owner == self@.owner,
            r.admin == self@.admin,
    {
        let (o, a) = self.owner_admin();
        State { owner: o.clone(), admin: a.clone() }
    }

    /// The ask for token `token_id` of `collection`, if it is listed.
    pub fn query_ask(&self, collection: String, token_id: String) -> (r: Option<Ask>)
        ensures
            match first_match(self@.asks, ask_is(collection@, token_id@)) {
                Some(i) => r == Some(self@.asks[i]),
                None => r is None,
            },
    {
        let asks = self.ask_list();
        match find_ask(asks, &collection, &token_id) {
            Some(i) => Some(asks[i].duplicate()),
            None => None,
        }
    }

    /// A page of the asks of `collection`, after the ask for token
    /// `start_after`.
    pub fn query_asks(&self, collection: String, start_after: Option<String>, limit: Option<u32>) -> (r: Vec<Ask>)
        ensures
            r@ == page(
                self@.asks,
                AskFilter::Collection(collection),
                match start_after {
                    Some(t) => Some(CollectionOffset { collection, token_id: t }),
                    None => None,
                },
                page_size(limit),
            ),
    {
        let cursor = match start_after {
            Some(t) => Some(CollectionOffset { collection: collection.clone(), token_id: t }),
            None => None,
        };
        list_page(self.ask_list(), &AskFilter::Collection(collection), &cursor, limit)
    }

    /// A page of `seller`'s asks, after the ask at `start_after`.
    pub fn query_asks_by_seller(&self, seller: String, start_after: Option<CollectionOffset>, limit: Option<u32>) -> (r: Vec<Ask>)
        ensures
            r@ == page(self@.asks, AskFilter::Seller(seller), start_after, page_size(limit)),
    {
        list_page(self.ask_list(), &AskFilter::Seller(seller), &start_after, limit)
    }

    /// The number of asks of `collection`.
    pub fn query_ask_count(&self, collection: String) -> (r: usize)
        ensures
            r == selection(self@.asks, AskFilter::Collection(collection)).len(),
    {
        let selected = select(self.ask_list(), &AskFilter::Collection(collection));
        selected.len()
    }

    /// A page of the bids on token `token_id` of `collection`, after
    /// `start_after`'s bid.
    pub fn query_bids(
        &self,
        collection: String,
        token_id: String,
        start_after: Option<String>,
        limit: Option<u32>,
    ) -> (r: Vec<Bid>)
        ensures
            r@ == page(
                self@.bids,
                BidFilter::Token(collection, token_id),
                match start_after {
                    Some(b) => Some(CollectionOffsetBid { collection, token_id, bidder: b }),
                    None => None,
                },
                page_size(limit),
            ),
    {
        let cursor = match start_after {
            Some(b) => Some(CollectionOffsetBid { collection: collection.clone(), token_id: token_id.clone(), bidder: b }),
            None => None,
        };
        list_page(self.bid_list(), &BidFilter::Token(collection, token_id), &cursor, limit)
    }

    /// A page of `bidder`'s bids, after its bid on the token at `start_after`.
    pub fn query_bids_by_bidder(&self, bidder: String, start_after: Option<CollectionOffset>, limit: Option<u32>) -> (r: Vec<Bid>)
        ensures
            r@ == page(
                self@.bids,
                BidFilter::Bidder(bidder),
                match start_after {
                    Some(o) => Some(CollectionOffsetBid { collection: o.collection, token_id: o.token_id, bidder }),
                    None => None,
                },
                page_size(limit),
            ),
    {
        let cursor = match start_after {
            Some(o) => Some(CollectionOffsetBid { collection: o.collection, token_id: o.token_id, bidder: bidder.clone() }),
            None => None,
        };
        list_page(self.bid_list(), &BidFilter::Bidder(bidder), &cursor, limit)
    }

    /// A page of the bids on `seller`'s tokens, after the bid at `start_after`.
    pub fn query_bids_by_seller(&self, seller: String, start_after: Option<CollectionOffsetBid>, limit: Option<u32>) -> (r: Vec<Bid>)
        ensures
            r@ == page(self@.bids, BidFilter::Seller(seller), start_after, page_size(limit)),
    {
        list_page(self.bid_list(), &BidFilter::Seller(seller), &start_after, limit)
    }

    /// `bidder`'s bid on the whole of `collection`, if any.
    pub fn query_collection_bid(&self, collection: String, bidder: String) -> (r: Option<CollectionBid>)
        ensures
            match first_match(self@.collection_bids, collection_bid_is(collection@, bidder@)) {
                Some(i) => r == Some(self@.collection_bids[i]),
                None => r is None,
            },
    {
        let bids = self.collection_bid_list();
        match find_collection_bid(bids, &collection, &bidder) {
            Some(i) => Some(bids[i].duplicate()),
            None => None,
        }
    }

    /// A page of `bidder`'s collection bids, after its bid on `start_after`.
    pub fn query_collection_bids_by_bidder(&self, bidder: String, start_after: Option<String>, limit: Option<u32>) -> (r: Vec<CollectionBid>)
        ensures
            r@ == page(
                self@.collection_bids,
                CollectionBidFilter::Bidder(bidder),
                match start_after {
                    Some(c) => Some(CollectionBidOffset { collection: c, bidder }),
                    None => None,
                },
                page_size(limit),
            ),
    {
        let cursor = match start_after {
            Some(c) => Some(CollectionBidOffset { collection: c, bidder: bidder.clone() }),
            None => None,
        };
        list_page(self.collection_bid_list(), &CollectionBidFilter::Bidder(bidder), &cursor, limit)
    }

    /// A page of the collection bids on `collection`, after `start_after`'s.
    pub fn query_collection_bid_by_collection(&self, collection: String, start_after: Option<String>, limit: Option<u32>) -> (r: Vec<CollectionBid>)
        ensures
            r@ == page(
                self@.collection_bids,
                CollectionBidFilter::Collection(collection),
                match start_after {
                    Some(b) => Some(CollectionBidOffset { collection, bidder: b }),
                    None => None,
                },
                page_size(limit),
            ),
    {
        let cursor = match start_after {
            Some(b) => Some(CollectionBidOffset { collection: collection.clone(), bidder: b }),
            None => None,
        };
        list_page(self.collection_bid_list(), &CollectionBidFilter::Collection(collection), &cursor, limit)
    }

    /// A page of `collection`'s sales, after the sale at `start_after`.
    pub fn query_sale_history(&self, collection: String, start_after: Option<SaleHistoryOffset>, limit: Option<u32>) -> (r: Vec<SaleRecord>)
        ensures
            r@ == page(
                self@.sales,
                SaleFilter::Collection(collection),
                match start_after {
                    Some(o) => Some(SaleHistoryOffsetByUser { collection, token_id: o.token_id, time: o.time }),
                    None => None,
                },
                page_size(limit),
            ),
    {
        let cursor = match start_after {
            Some(o) => Some(SaleHistoryOffsetByUser { collection: collection.clone(), token_id: o.token_id, time: o.time }),
            None => None,
        };
        list_page(self.sale_list(), &SaleFilter::Collection(collection), &cursor, limit)
    }

    /// A page of the sales of token `token_id` of `collection`, after the
    /// sale at time `start_after`.
    pub fn query_sale_history_by_token_id(
        &self,
        collection: String,
        token_id: String,
        start_after: Option<u64>,
        limit: Option<u32>,
    ) -> (r: Vec<SaleRecord>)
        ensures
            r@ == page(
                self@.sales,
                SaleFilter::Token(collection, token_id),
                match start_after {
                    Some(t) => Some(SaleHistoryOffsetByUser { collection, token_id, time: t }),
                    None => None,
                },
                page_size(limit),
            ),
    {
        let cursor = match start_after {
            Some(t) => Some(SaleHistoryOffsetByUser { collection: collection.clone(), token_id: token_id.clone(), time: t }),
            None => None,
        };
        list_page(self.sale_list(), &SaleFilter::Token(collection, token_id), &cursor, limit)
    }

    /// A page of `buyer`'s purchases, after the sale at `start_after`.
    pub fn query_sale_history_by_buyer(&self, buyer: String, start_after: Option<SaleHistoryOffsetByUser>, limit: Option<u32>) -> (r: Vec<SaleRecord>)
        ensures
            r@ == page(self@.sales, SaleFilter::Buyer(buyer), start_after, page_size(limit)),
    {
        list_page(self.sale_list(), &SaleFilter::Buyer(buyer), &start_after, limit)
    }

    /// A page of `seller`'s sales, after the sale at `start_after`.
    pub fn query_sale_history_by_seller(&self, seller: String, start_after: Option<SaleHistoryOffsetByUser>, limit: Option<u32>) -> (r: Vec<SaleRecord>)
        ensures
            r@ == page(self@.sales, SaleFilter::Seller(seller), start_after, page_size(limit)),
    {
        list_page(self.sale_list(), &SaleFilter::Seller(seller), &start_after, limit)
    }
}


/// Every record on a page is one its filter selects.
pub proof fn law_page_records_selected<A: Listing>(items: Seq<A>, f: A::Filter, cursor: Option<A::Cursor>, size: nat)
    ensures
        forall|k: int| 0 <= k < page(items, f, cursor, size).len() ==> (#[trigger] page(items, f, cursor, size)[k]).selected(f),
{
    let sel = selection(items, f);
    #[allow(deprecated)]
    items.filter_lemma(|a: A| a.selected(f));
    let start = page_start(sel, cursor);
    if cursor is Some {
        if first_match(sel, |a: A| a.at_cursor(cursor->0)) is Some {
            crate::model::lemma_first_match_some(sel, |a: A| a.at_cursor(cursor->0));
        }
    }
    assert forall|k: int| 0 <= k < page(items, f, cursor, size).len() implies (#[trigger] page(items, f, cursor, size)[k]).selected(f) by {
        assert(page(items, f, cursor, size)[k] == sel[start + k]);
    }
}

/// With no cursor and room for all, a page holds every selected record, in
/// order.
pub proof fn law_full_page_is_selection<A: Listing>(items: Seq<A>, f: A::Filter, size: nat)
    requires
        size >= selection(items, f).len(),
    ensures
        page(items, f, None, size) == selection(items, f),
{
    assert(page(items, f, None, size) =~= selection(items, f));
}

/// Asks are selected by their collection, or by their seller.
pub proof fn law_ask_selection(asks: Seq<Ask>, f: AskFilter)
    ensures
        match f {
            AskFilter::Collection(c) => selection(asks, f) == asks.filter(|a: Ask| a.collection@ == c@),
            AskFilter::Seller(s) => selection(asks, f) == asks.filter(|a: Ask| a.seller@ == s@),
        },
{
    match f {
        AskFilter::Collection(c) => {
            assert((|a: Ask| a.selected(f)) =~= (|a: Ask| a.collection@ == c@));
        },
        AskFilter::Seller(s) => {
            assert((|a: Ask| a.selected(f)) =~= (|a: Ask| a.seller@ == s@));
        },
    }
}

/// Bids are selected by the token they are on, by their bidder, or by the
/// seller of the token they are on.
pub proof fn law_bid_selection(bids: Seq<Bid>, f: BidFilter)
    ensures
        match f {
            BidFilter::Token(c, t) => selection(bids, f) == bids.filter(|b: Bid| b.collection@ == c@ && b.token_id@ == t@),
            BidFilter::Bidder(x) => selection(bids, f) == bids.filter(|b: Bid| b.bidder@ == x@),
            BidFilter::Seller(s) => selection(bids, f) == bids.filter(|b: Bid| b.seller@ == s@),
        },
{
    match f {
        BidFilter::Token(c, t) => {
            assert((|b: Bid| b.selected(f)) =~= (|b: Bid| b.collection@ == c@ && b.token_id@ == t@));
        },
        BidFilter::Bidder(x) => {
            assert((|b: Bid| b.selected(f)) =~= (|b: Bid| b.bidder@ == x@));
        },
        BidFilter::Seller(s) => {
            assert((|b: Bid| b.selected(f)) =~= (|b: Bid| b.seller@ == s@));
        },
    }
}

/// Collection bids are selected by their collection, or by their bidder.
pub proof fn law_collection_bid_selection(bids: Seq<CollectionBid>, f: CollectionBidFilter)
    ensures
        match f {
            CollectionBidFilter::Collection(c) => selection(bids, f) == bids.filter(|b: CollectionBid| b.collection@ == c@),
            CollectionBidFilter::Bidder(x) => selection(bids, f) == bids.filter(|b: CollectionBid| b.bidder@ == x@),
        },
{
    match f {
        CollectionBidFilter::Collection(c) => {
            assert((|b: CollectionBid| b.selected(f)) =~= (|b: CollectionBid| b.collection@ == c@));
        },
        CollectionBidFilter::Bidder(x) => {
            assert((|b: CollectionBid| b.selected(f)) =~= (|b: CollectionBid| b.bidder@ == x@));
        },
    }
}

/// Sales are selected by their collection, by the token sold, by their
/// buyer, or by their seller.
pub proof fn law_sale_selection(sales: Seq<SaleRecord>, f: SaleFilter)
    ensures
        match f {
            SaleFilter::Collection(c) => selection(sales, f) == sales.filter(|r: SaleRecord| r.collection@ == c@),
            SaleFilter::Token(c, t) => selection(sales, f) == sales.filter(|r: SaleRecord| r.collection@ == c@ && r.token_id@ == t@),
            SaleFilter::Buyer(b) => selection(sales, f) == sales.filter(|r: SaleRecord| r.buyer@ == b@),
            SaleFilter::Seller(s) => selection(sales, f) == sales.filter(|r: SaleRecord| r.seller@ == s@),
        },
{
    match f {
        SaleFilter::Collection(c) => {
            assert((|r: SaleRecord| r.selected(f)) =~= (|r: SaleRecord| r.collection@ == c@));
        },
        SaleFilter::Token(c, t) => {
            assert((|r: SaleRecord| r.selected(f)) =~= (|r: SaleRecord| r.collection@ == c@ && r.token_id@ == t@));
        },
        SaleFilter::Buyer(b) => {
            assert((|r: SaleRecord| r.selected(f)) =~= (|r: SaleRecord| r.buyer@ == b@));
        },
        SaleFilter::Seller(s) => {
            assert((|r: SaleRecord| r.selected(f)) =~= (|r: SaleRecord| r.seller@ == s@));
        },
    }
}

/// A page starts after the record whose key is the cursor's: an ask or bid
/// by its collection and token (and bidder), a collection bid by its
/// collection and bidder, a sale by its collection, token and time.
pub proof fn law_cursor_keys()
    ensures
        forall|a: Ask, c: CollectionOffset| #[trigger] a.at_cursor(c) <==> (a.collection@ == c.collection@ && a.token_id@ == c.token_id@),
        forall|b: Bid, c: CollectionOffsetBid| #[trigger] b.at_cursor(c) <==> (b.collection@ == c.collection@
            && b.token_id@ == c.token_id@ && b.bidder@ == c.bidder@),
        forall|b: CollectionBid, c: CollectionBidOffset| #[trigger] b.at_cursor(c) <==> (b.collection@ == c.collection@
            && b.bidder@ == c.bidder@),
        forall|r: SaleRecord, c: SaleHistoryOffsetByUser| #[trigger] r.at_cursor(c) <==> (r.collection@ == c.collection@
            && r.token_id@ == c.token_id@ && r.time == c.time),
{
}

/// The sale history of buyer `b` holds only sales bought by `b`, and with
/// no cursor and room for all, every sale bought by `b`, in order.
pub proof fn law_sales_by_buyer(sales: Seq<SaleRecord>, b: String, cursor: Option<SaleHistoryOffsetByUser>, size: nat)
    ensures
        forall|k: int| 0 <= k < page(sales, SaleFilter::Buyer(b), cursor, size).len() ==> (#[trigger] page(
            sales,
            SaleFilter::Buyer(b),
            cursor,
            size,
        )[k]).buyer@ == b@,
        size >= sales.filter(|r: SaleRecord| r.buyer@ == b@).len() ==> page(sales, SaleFilter::Buyer(b), None, size)
            == sales.filter(|r: SaleRecord| r.buyer@ == b@),
{
    law_page_records_selected(sales, SaleFilter::Buyer(b), cursor, size);
    law_sale_selection(sales, SaleFilter::Buyer(b));
    if size >= sales.filter(|r: SaleRecord| r.buyer@ == b@).len() {
        law_full_page_is_selection(sales, SaleFilter::Buyer(b), size);
    }
}

/// The bids on seller `s`'s tokens are only bids whose token `s` listed,
/// and with no cursor and room for all, every such bid, in order.
pub proof fn law_bids_by_seller(bids: Seq<Bid>, s: String, cursor: Option<CollectionOffsetBid>, size: nat)
    ensures
        forall|k: int| 0 <= k < page(bids, BidFilter::Seller(s), cursor, size).len() ==> (#[trigger] page(
            bids,
            BidFilter::Seller(s),
            cursor,
            size,
        )[k]).seller@ == s@,
        size >= bids.filter(|b: Bid| b.seller@ == s@).len() ==> page(bids, BidFilter::Seller(s), None, size) == bids.filter(
            |b: Bid| b.seller@ == s@,
        ),
{
    law_page_records_selected(bids, BidFilter::Seller(s), cursor, size);
    law_bid_selection(bids, BidFilter::Seller(s));
    if size >= bids.filter(|b: Bid| b.seller@ == s@).len() {
        law_full_page_is_selection(bids, BidFilter::Seller(s), size);
    }
}

} // verus!
