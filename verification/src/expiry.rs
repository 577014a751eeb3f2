//! A bidder's bids ordered by when they expire, soonest first.
use vstd::prelude::*;

use crate::market::Market;
use crate::model::{first_match, lemma_first_match_at, lemma_first_match_some};
use crate::query::{list_page, page, page_size, select, selection, BidFilter};
use crate::types::{Bid, CollectionOffset, CollectionOffsetBid};

verus! {

pub open spec fn expires_after(t: u64) -> spec_fn(Bid) -> bool {
    |b: Bid| b.expires_at > t
}

/// `x` placed in `s` before the first bid that expires later than it.
pub open spec fn insert_by_expiry(s: Seq<Bid>, x: Bid) -> Seq<Bid> {
    match first_match(s, expires_after(x.expires_at)) {
        Some(i) => s.insert(i, x),
        None => s.push(x),
    }
}

/// The bids of `s` ordered by expiry, soonest first; bids that expire at
/// the same time keep their order in `s`.
pub open spec fn by_expiry(s: Seq<Bid>) -> Seq<Bid>
    decreases s.len(),
{
    if s.len() == 0 {
        s
    } else {
        insert_by_expiry(by_expiry(s.drop_last()), s.last())
    }
}

pub open spec fn expiry_sorted(s: Seq<Bid>) -> bool {
    forall|i: int, j: int| 0 <= i < j < s.len() ==> (#[trigger] s[i]).expires_at <= (#[trigger] s[j]).expires_at
}

/// The bids ordered by expiry are in order of expiry and are the same bids.
pub proof fn law_by_expiry_sorts(s: Seq<Bid>)
    ensures
        expiry_sorted(by_expiry(s)),
        by_expiry(s).to_multiset() == s.to_multiset(),
    decreases s.len(),
{
    broadcast use vstd::seq_lib::group_to_multiset_ensures;

    if s.len() > 0 {
        let rest = s.drop_last();
        let x = s.last();
        law_by_expiry_sorts(rest);
        let r = by_expiry(rest);
        let p = expires_after(x.expires_at);
        match first_match(r, p) {
            Some(i) => {
                lemma_first_match_some(r, p);
                let out = r.insert(i, x);
                r.insert_ensures(i, x);
                assert forall|a: int, b: int| 0 <= a < b < out.len() implies (#[trigger] out[a]).expires_at
                    <= (#[trigger] out[b]).expires_at by {
                    if b < i {
                    } else if b == i {
                        assert(!p(r[a]));
                    } else if a < i {
                        assert(out[b] == r[b - 1]);
                    } else if a == i {
                        assert(out[b] == r[b - 1]);
                        if b - 1 > i {
                            assert(r[i].expires_at <= r[b - 1].expires_at);
                        }
                    } else {
                        assert(out[a] == r[a - 1]);
                        assert(out[b] == r[b - 1]);
                    }
                }
                vstd::seq_lib::to_multiset_insert(r, i, x);
            },
            None => {
                let out = r.push(x);
                assert forall|a: int, b: int| 0 <= a < b < out.len() implies (#[trigger] out[a]).expires_at
                    <= (#[trigger] out[b]).expires_at by {
                    if b == r.len() {
                        assert(!p(r[a]));
                    }
                }
                vstd::seq_lib::to_multiset_build(r, x);
            },
        }
        vstd::seq_lib::to_multiset_build(rest, x);
        assert(rest.push(x) =~= s);
    }
}

fn first_later(bids: &Vec<Bid>, t: u64) -> (r: Option<usize>)
    ensures
        match r {
            Some(i) => first_match(bids@, expires_after(t)) == Some(i as int) && i < bids@.len(),
            None => first_match(bids@, expires_after(t)) is None,
        },
{
    let n = bids.len();
    for i in 0..n
        invariant
            n == bids@.len(),
            forall|j: int| 0 <= j < i ==> !expires_after(t)(bids@[j]),
    {
        if bids[i].expires_at > t {
            proof {
                lemma_first_match_at(bids@, expires_after(t), i as int);
            }
            return Some(i);
        }
    }
    None
}

/// The bids ordered by expiry, soonest first, ties in their order.
pub fn sort_by_expiry(bids: &Vec<Bid>) -> (r: Vec<Bid>)
    ensures
        r@ == by_expiry(bids@),
{
    let mut r: Vec<Bid> = Vec::new();
    let n = bids.len();
    assert(bids@.take(0) =~= Seq::<Bid>::empty());
    for i in 0..n
        invariant
            n == bids@.len(),
            r@ == by_expiry(bids@.take(i as int)),
    {
        assert(bids@.take(i + 1).drop_last() =~= bids@.take(i as int));
        assert(bids@.take(i + 1).last() == bids@[i as int]);
        let b = bids[i].duplicate();
        match first_later(&r, b.expires_at) {
            Some(j) => {
                r.insert(j, b);
            },
            None => {
                r.push(b);
            },
        }
    }
    assert(bids@.take(n as int) =~= bids@);
    r
}

impl Market {
    /// A page of `bidder`'s bids ordered by expiry, soonest first, after
    /// its bid on the token at `start_after`.
    pub fn query_bids_by_bidder_sorted_by_expiry(
        &self,
        bidder: String,
        start_after: Option<CollectionOffset>,
        limit: Option<u32>,
    ) -> (r: Vec<Bid>)
        ensures
            r@ == page(
                by_expiry(selection(self@.bids, BidFilter::Bidder(bidder))),
                BidFilter::Bidder(bidder),
                match start_after {
                    Some(o) => Some(CollectionOffsetBid { collection: o.collection, token_id: o.token_id, bidder }),
                    None => None,
                },
                page_size(limit),
            ),
    {
        let cursor = match start_after {
            Some(o) => Some(CollectionOffsetBid { collection: o.collection, token_id: o.token_id, bidder: bidder.clone() }),
            None => None,
        };
        let filter = BidFilter::Bidder(bidder);
        let selected = select(self.bid_list(), &filter);
        let sorted = sort_by_expiry(&selected);
        list_page(&sorted, &filter, &cursor, limit)
    }
}

} // verus!
