//! The traded volume of the marketplace: per currency within a collection,
//! or per collection within a currency.
use vstd::prelude::*;

use crate::market::Market;
use crate::model::{first_match, lemma_first_match_at, lemma_first_match_some};
use crate::sums::sum_of;
use crate::query::{page_size, DEFAULT_LIMIT, MAX_LIMIT};
use crate::types::{ContractError, SaleRecord, TvlInfo};

verus! {

pub open spec fn key_is(key: Seq<char>) -> spec_fn((String, int)) -> bool {
    |e: (String, int)| e.0@ == key
}

/// The table `t` with `amount` added to the entry for `key`, or a new entry
/// for `key` at the end.
pub open spec fn add_volume(t: Seq<(String, int)>, key: String, amount: int) -> Seq<(String, int)> {
    match first_match(t, key_is(key@)) {
        Some(i) => t.update(i, (t[i].0, t[i].1 + amount)),
        None => t.push((key, amount)),
    }
}

/// The sale's entry key in a volume table: its currency within a
/// collection (`by_collection`), or its collection within a currency.
pub open spec fn entry_key(s: SaleRecord, by_collection: bool) -> String {
    if by_collection {
        s.price.denom
    } else {
        s.collection
    }
}

/// Whether the sale counts toward the volume table of `key`.
pub open spec fn counted(s: SaleRecord, by_collection: bool, key: Seq<char>) -> bool {
    if by_collection {
        s.collection@ == key
    } else {
        s.price.denom@ == key
    }
}

/// The traded volume of the sales that count toward `key`, one entry per
/// currency (or collection) in the order each first traded, each entry the
/// sum of the prices of its sales.
pub open spec fn volumes(sales: Seq<SaleRecord>, by_collection: bool, key: Seq<char>) -> Seq<(String, int)>
    decreases sales.len(),
{
    if sales.len() == 0 {
        Seq::empty()
    } else {
        let t = volumes(sales.drop_last(), by_collection, key);
        let s = sales.last();
        if counted(s, by_collection, key) {
            add_volume(t, entry_key(s, by_collection), s.price.amount as int)
        } else {
            t
        }
    }
}

/// Whether some entry of `t` exceeds what a 128-bit amount holds.
pub open spec fn volume_overflows(t: Seq<(String, int)>) -> bool {
    exists|k: int| 0 <= k < t.len() && (#[trigger] t[k]).1 > u128::MAX
}

/// A page of at most `size` entries of `t`, after the entry for
/// `start_after`.
pub open spec fn volume_page(t: Seq<(String, int)>, start_after: Option<String>, size: nat) -> Seq<(String, int)> {
    let start = match start_after {
        None => 0,
        Some(k) => match first_match(t, key_is(k@)) {
            Some(i) => i + 1,
            None => t.len() as int,
        },
    };
    let end = if start + size < t.len() { start + size } else { t.len() as int };
    t.subrange(start, end)
}

pub open spec fn tvl_entry(e: TvlInfo) -> (String, int) {
    (e.key, e.amount as int)
}

/// Adding to a table keeps its entries in place and never lowers one.
proof fn lemma_add_volume_grows(t: Seq<(String, int)>, key: String, amount: int)
    requires
        amount >= 0,
    ensures
        add_volume(t, key, amount).len() >= t.len(),
        forall|k: int| 0 <= k < t.len() ==> (#[trigger] add_volume(t, key, amount)[k]).0 == t[k].0
            && add_volume(t, key, amount)[k].1 >= t[k].1,
{
    if first_match(t, key_is(key@)) is Some {
        crate::model::lemma_first_match_some(t, key_is(key@));
    }
}

/// Later tables keep the entries of earlier ones in place, never lower.
proof fn lemma_volumes_grow(sales: Seq<SaleRecord>, by_collection: bool, key: Seq<char>, i: int)
    requires
        0 <= i <= sales.len(),
    ensures
        volumes(sales, by_collection, key).len() >= volumes(sales.take(i), by_collection, key).len(),
        forall|k: int| 0 <= k < volumes(sales.take(i), by_collection, key).len() ==> (#[trigger] volumes(sales, by_collection, key)[k]).0
            == volumes(sales.take(i), by_collection, key)[k].0 && volumes(sales, by_collection, key)[k].1 >= volumes(
            sales.take(i),
            by_collection,
            key,
        )[k].1,
    decreases sales.len() - i,
{
    if i == sales.len() {
        assert(sales.take(i) =~= sales);
    } else {
        lemma_volumes_grow(sales, by_collection, key, i + 1);
        assert(sales.take(i + 1).drop_last() =~= sales.take(i));
        let t = volumes(sales.take(i), by_collection, key);
        let s = sales[i];
        assert(sales.take(i + 1).last() == s);
        if counted(s, by_collection, key) {
            lemma_add_volume_grows(t, entry_key(s, by_collection), s.price.amount as int);
        }
    }
}

fn find_entry(entries: &Vec<TvlInfo>, key: &String) -> (r: Option<usize>)
    ensures
        match r {
            Some(i) => first_match(entries@.map_values(|e: TvlInfo| tvl_entry(e)), key_is(key@)) == Some(i as int) && i < entries@.len(),
            None => first_match(entries@.map_values(|e: TvlInfo| tvl_entry(e)), key_is(key@)) is None,
        },
{
    let ghost t = entries@.map_values(|e: TvlInfo| tvl_entry(e));
    let n = entries.len();
    for i in 0..n
        invariant
            n == entries@.len(),
            t == entries@.map_values(|e: TvlInfo| tvl_entry(e)),
            forall|j: int| 0 <= j < i ==> !key_is(key@)(t[j]),
    {
        if entries[i].key == *key {
            proof {
                lemma_first_match_at(t, key_is(key@), i as int);
            }
            return Some(i);
        }
    }
    None
}

/// The volume table of `key`, or an overflow error where an entry exceeds
/// what a 128-bit amount holds.
fn volume_table(sales: &Vec<SaleRecord>, by_collection: bool, key: &String) -> (r: Result<Vec<TvlInfo>, ContractError>)
    ensures
        match r {
            Ok(v) => !volume_overflows(volumes(sales@, by_collection, key@))
                && v@.map_values(|e: TvlInfo| tvl_entry(e)) == volumes(sales@, by_collection, key@),
            Err(e) => e == ContractError::Overflow && volume_overflows(volumes(sales@, by_collection, key@)),
        },
{
    let mut entries: Vec<TvlInfo> = Vec::new();
    let n = sales.len();
    assert(sales@.take(0) =~= Seq::<SaleRecord>::empty());
    assert(entries@.map_values(|e: TvlInfo| tvl_entry(e)) =~= volumes(sales@.take(0), by_collection, key@));
    for i in 0..n
        invariant
            n == sales@.len(),
            entries@.map_values(|e: TvlInfo| tvl_entry(e)) == volumes(sales@.take(i as int), by_collection, key@),
    {
        let ghost t = volumes(sales@.take(i as int), by_collection, key@);
        assert(sales@.take(i + 1).drop_last() =~= sales@.take(i as int));
        assert(sales@.take(i + 1).last() == sales@[i as int]);
        let s = &sales[i];
        let is_counted = if by_collection { s.collection == *key } else { s.price.denom == *key };
        if is_counted {
            let k = if by_collection { &s.price.denom } else { &s.collection };
            match find_entry(&entries, k) {
                Some(j) => {
                    let cur = entries[j].amount;
                    match cur.checked_add(s.price.amount) {
                        Some(total) => {
                            let ghost before = entries@;
                            entries.set(j, TvlInfo { key: entries[j].key.clone(), amount: total });
                            assert(entries@.map_values(|e: TvlInfo| tvl_entry(e)) =~= add_volume(t, *k, s.price.amount as int));
                        },
                        None => {
                            proof {
                                let t2 = volumes(sales@.take(i + 1), by_collection, key@);
                                assert(t2[j as int].1 > u128::MAX);
                                lemma_volumes_grow(sales@, by_collection, key@, i + 1);
                                let all = volumes(sales@, by_collection, key@);
                                assert(all[j as int].1 > u128::MAX);
                            }
                            return Err(ContractError::Overflow);
                        },
                    }
                },
                None => {
                    entries.push(TvlInfo { key: k.clone(), amount: s.price.amount });
                    assert(entries@.map_values(|e: TvlInfo| tvl_entry(e)) =~= add_volume(t, *k, s.price.amount as int));
                },
            }
        } else {
            assert(entries@.map_values(|e: TvlInfo| tvl_entry(e)) =~= volumes(sales@.take(i + 1), by_collection, key@));
        }
    }
    assert(sales@.take(n as int) =~= sales@);
    Ok(entries)
}

/// A page of the entries, after the entry for `start_after`.
fn page_entries(entries: &Vec<TvlInfo>, start_after: &Option<String>, limit: Option<u32>) -> (r: Vec<TvlInfo>)
    ensures
        r@.map_values(|e: TvlInfo| tvl_entry(e)) == volume_page(entries@.map_values(|e: TvlInfo| tvl_entry(e)), *start_after, page_size(limit)),
{
    let ghost t = entries@.map_values(|e: TvlInfo| tvl_entry(e));
    let n = entries.len();
    let start: usize = match start_after {
        None => 0,
        Some(k) => match find_entry(entries, k) {
            Some(i) => i + 1,
            None => n,
        },
    };
    let size: u32 = match limit {
        Some(l) => if l < MAX_LIMIT { l } else { MAX_LIMIT },
        None => DEFAULT_LIMIT,
    };
    let end: usize = if n - start > size as usize { start + size as usize } else { n };
    let mut r: Vec<TvlInfo> = Vec::new();
    let mut k = start;
    while k < end
        invariant
            start <= k <= end <= n,
            n == entries@.len(),
            t == entries@.map_values(|e: TvlInfo| tvl_entry(e)),
            r@.map_values(|e: TvlInfo| tvl_entry(e)) == t.subrange(start as int, k as int),
        decreases end - k,
    {
        assert(t[k as int] == tvl_entry(entries@[k as int]));
        let ghost prev = r@;
        r.push(TvlInfo { key: entries[k].key.clone(), amount: entries[k].amount });
        assert(r@ == prev.push(entries@[k as int]));
        assert(r@.map_values(|e: TvlInfo| tvl_entry(e)) =~= prev.map_values(|e: TvlInfo| tvl_entry(e)).push(t[k as int]));
        assert(r@.map_values(|e: TvlInfo| tvl_entry(e)) =~= t.subrange(start as int, k + 1));
        k = k + 1;
    }
    r
}

/// A page of the volume table of `key`, after the entry for `start_after`.
fn volume_query(
    sales: &Vec<SaleRecord>,
    by_collection: bool,
    key: &String,
    start_after: Option<String>,
    limit: Option<u32>,
) -> (r: Result<Vec<TvlInfo>, ContractError>)
    ensures
        match r {
            Ok(v) => !volume_overflows(volumes(sales@, by_collection, key@))
                && v@.map_values(|e: TvlInfo| tvl_entry(e)) == volume_page(volumes(sales@, by_collection, key@), start_after, page_size(limit)),
            Err(e) => e == ContractError::Overflow && volume_overflows(volumes(sales@, by_collection, key@)),
        },
{
    match volume_table(sales, by_collection, key) {
        Ok(v) => Ok(page_entries(&v, &start_after, limit)),
        Err(e) => Err(e),
    }
}

impl Market {
    /// A page of `collection`'s traded volume per currency, after the entry
    /// for the currency `start_after`.
    pub fn query_tvl_by_collection(&self, collection: String, start_after: Option<String>, limit: Option<u32>) -> (r: Result<
        Vec<TvlInfo>,
        ContractError,
    >)
        ensures
            match r {
                Ok(v) => !volume_overflows(volumes(self@.sales, true, collection@))
                    && v@.map_values(|e: TvlInfo| tvl_entry(e)) == volume_page(volumes(self@.sales, true, collection@), start_after, page_size(limit)),
                Err(e) => e == ContractError::Overflow && volume_overflows(volumes(self@.sales, true, collection@)),
            },
    {
        volume_query(self.sale_list(), true, &collection, start_after, limit)
    }

    /// A page of the traded volume in the currency `denom` per collection,
    /// after the entry for the collection `start_after`.
    pub fn query_tvl_by_denom(&self, denom: String, start_after: Option<String>, limit: Option<u32>) -> (r: Result<
        Vec<TvlInfo>,
        ContractError,
    >)
        ensures
            match r {
                Ok(v) => !volume_overflows(volumes(self@.sales, false, denom@))
                    && v@.map_values(|e: TvlInfo| tvl_entry(e)) == volume_page(volumes(self@.sales, false, denom@), start_after, page_size(limit)),
                Err(e) => e == ContractError::Overflow && volume_overflows(volumes(self@.sales, false, denom@)),
            },
    {
        volume_query(self.sale_list(), false, &denom, start_after, limit)
    }
}


/// A sale's contribution to the entry `entry` of the volume table of `key`.
pub open spec fn volume_term(by_collection: bool, key: Seq<char>, entry: Seq<char>) -> spec_fn(SaleRecord) -> int {
    |s: SaleRecord| if counted(s, by_collection, key) && entry_key(s, by_collection)@ == entry {
        s.price.amount as int
    } else {
        0
    }
}

/// The sum of the prices of the sales that count toward `key` under the
/// entry `entry`.
pub open spec fn volume_of(sales: Seq<SaleRecord>, by_collection: bool, key: Seq<char>, entry: Seq<char>) -> int {
    sum_of(sales, volume_term(by_collection, key, entry))
}

proof fn lemma_sum_all_zero(sales: Seq<SaleRecord>, f: spec_fn(SaleRecord) -> int)
    requires
        forall|k: int| 0 <= k < sales.len() ==> f(#[trigger] sales[k]) == 0,
    ensures
        sum_of(sales, f) == 0,
    decreases sales.len(),
{
    if sales.len() > 0 {
        lemma_sum_all_zero(sales.drop_last(), f);
    }
}

/// The volume table has one entry per key, each entry is the sum of the
/// prices of the sales that count toward it, and every counted sale has
/// its entry.
pub proof fn law_volumes_are_sums(sales: Seq<SaleRecord>, by_collection: bool, key: Seq<char>)
    ensures
        ({
            let t = volumes(sales, by_collection, key);
            &&& forall|i: int, j: int| 0 <= i < j < t.len() ==> (#[trigger] t[i]).0@ != (#[trigger] t[j]).0@
            &&& forall|i: int| 0 <= i < t.len() ==> (#[trigger] t[i]).1 == volume_of(sales, by_collection, key, t[i].0@)
            &&& forall|k: int| 0 <= k < sales.len() && counted(#[trigger] sales[k], by_collection, key) ==> exists|i: int|
                0 <= i < t.len() && (#[trigger] t[i]).0@ == entry_key(sales[k], by_collection)@
        }),
    decreases sales.len(),
{
    if sales.len() > 0 {
        let rest = sales.drop_last();
        let x = sales.last();
        law_volumes_are_sums(rest, by_collection, key);
        let t0 = volumes(rest, by_collection, key);
        let t = volumes(sales, by_collection, key);
        assert forall|k: int| 0 <= k < rest.len() implies #[trigger] rest[k] == sales[k] by {}
        if counted(x, by_collection, key) {
            let kx = entry_key(x, by_collection);
            match first_match(t0, key_is(kx@)) {
                Some(i0) => {
                    lemma_first_match_some(t0, key_is(kx@));
                    assert(t == t0.update(i0, (t0[i0].0, t0[i0].1 + x.price.amount)));
                    assert forall|i: int| 0 <= i < t.len() implies (#[trigger] t[i]).1 == volume_of(sales, by_collection, key, t[i].0@) by {
                        assert(volume_of(sales, by_collection, key, t[i].0@) == volume_of(rest, by_collection, key, t[i].0@)
                            + volume_term(by_collection, key, t[i].0@)(x));
                        if i != i0 {
                            assert(t[i] == t0[i]);
                            if t0[i].0@ == kx@ {
                                if i < i0 {
                                    assert(key_is(kx@)(t0[i]));
                                } else {
                                    assert(t0[i0].0@ == t0[i].0@);
                                }
                            }
                        }
                    }
                    assert forall|i: int, j: int| 0 <= i < j < t.len() implies (#[trigger] t[i]).0@ != (#[trigger] t[j]).0@ by {
                        assert(t[i].0 == t0[i].0);
                        assert(t[j].0 == t0[j].0);
                    }
                    assert forall|k: int| 0 <= k < sales.len() && counted(#[trigger] sales[k], by_collection, key) implies exists|i: int|
                        0 <= i < t.len() && (#[trigger] t[i]).0@ == entry_key(sales[k], by_collection)@ by {
                        if k < rest.len() {
                            assert(counted(rest[k], by_collection, key));
                            let i = choose|i: int| 0 <= i < t0.len() && (#[trigger] t0[i]).0@ == entry_key(rest[k], by_collection)@;
                            assert(t[i].0 == t0[i].0);
                        } else {
                            assert(t[i0].0@ == kx@);
                        }
                    }
                },
                None => {
                    assert(t == t0.push((kx, x.price.amount as int)));
                    assert forall|k: int| 0 <= k < rest.len() implies volume_term(by_collection, key, kx@)(#[trigger] rest[k]) == 0 by {
                        if counted(rest[k], by_collection, key) && entry_key(rest[k], by_collection)@ == kx@ {
                            let i = choose|i: int| 0 <= i < t0.len() && (#[trigger] t0[i]).0@ == entry_key(rest[k], by_collection)@;
                            assert(key_is(kx@)(t0[i]));
                        }
                    }
                    lemma_sum_all_zero(rest, volume_term(by_collection, key, kx@));
                    assert forall|i: int| 0 <= i < t.len() implies (#[trigger] t[i]).1 == volume_of(sales, by_collection, key, t[i].0@) by {
                        assert(volume_of(sales, by_collection, key, t[i].0@) == volume_of(rest, by_collection, key, t[i].0@)
                            + volume_term(by_collection, key, t[i].0@)(x));
                        if i < t0.len() {
                            assert(t[i] == t0[i]);
                            assert(!key_is(kx@)(t0[i]));
                        }
                    }
                    assert forall|i: int, j: int| 0 <= i < j < t.len() implies (#[trigger] t[i]).0@ != (#[trigger] t[j]).0@ by {
                        if j == t0.len() {
                            assert(t[i] == t0[i]);
                            assert(!key_is(kx@)(t0[i]));
                        } else {
                            assert(t[i] == t0[i]);
                            assert(t[j] == t0[j]);
                        }
                    }
                    assert forall|k: int| 0 <= k < sales.len() && counted(#[trigger] sales[k], by_collection, key) implies exists|i: int|
                        0 <= i < t.len() && (#[trigger] t[i]).0@ == entry_key(sales[k], by_collection)@ by {
                        if k < rest.len() {
                            assert(counted(rest[k], by_collection, key));
                            let i = choose|i: int| 0 <= i < t0.len() && (#[trigger] t0[i]).0@ == entry_key(rest[k], by_collection)@;
                            assert(t[i] == t0[i]);
                        } else {
                            assert(t[t0.len() as int].0@ == kx@);
                        }
                    }
                },
            }
        } else {
            assert(t == t0);
            assert forall|i: int| 0 <= i < t.len() implies (#[trigger] t[i]).1 == volume_of(sales, by_collection, key, t[i].0@) by {
                assert(volume_of(sales, by_collection, key, t[i].0@) == volume_of(rest, by_collection, key, t[i].0@)
                    + volume_term(by_collection, key, t[i].0@)(x));
            }
            assert forall|k: int| 0 <= k < sales.len() && counted(#[trigger] sales[k], by_collection, key) implies exists|i: int|
                0 <= i < t.len() && (#[trigger] t[i]).0@ == entry_key(sales[k], by_collection)@ by {
                if k < rest.len() {
                    assert(counted(rest[k], by_collection, key));
                }
            }
        }
    }
}


/// The volume in the currency `denom` has one entry per collection; every
/// sale priced in `denom`, whichever contract it was paid through, has the
/// entry of its collection, and each entry is the sum of the prices of the
/// sales of that collection priced in `denom`.
pub proof fn law_volume_by_denom(sales: Seq<SaleRecord>, denom: Seq<char>)
    ensures
        ({
            let t = volumes(sales, false, denom);
            &&& forall|i: int, j: int| 0 <= i < j < t.len() ==> (#[trigger] t[i]).0@ != (#[trigger] t[j]).0@
            &&& forall|i: int| 0 <= i < t.len() ==> (#[trigger] t[i]).1 == sum_of(
                sales,
                |r: SaleRecord| if r.price.denom@ == denom && r.collection@ == t[i].0@ { r.price.amount as int } else { 0 },
            )
            &&& forall|k: int| 0 <= k < sales.len() && (#[trigger] sales[k]).price.denom@ == denom ==> exists|i: int|
                0 <= i < t.len() && (#[trigger] t[i]).0@ == sales[k].collection@
        }),
{
    law_volumes_are_sums(sales, false, denom);
    let t = volumes(sales, false, denom);
    assert forall|i: int| 0 <= i < t.len() implies (#[trigger] t[i]).1 == sum_of(
        sales,
        |r: SaleRecord| if r.price.denom@ == denom && r.collection@ == t[i].0@ { r.price.amount as int } else { 0 },
    ) by {
        assert(volume_term(false, denom, t[i].0@) =~= (|r: SaleRecord| if r.price.denom@ == denom && r.collection@ == t[i].0@ {
            r.price.amount as int
        } else {
            0
        }));
    }
    assert forall|k: int| 0 <= k < sales.len() && (#[trigger] sales[k]).price.denom@ == denom implies exists|i: int|
        0 <= i < t.len() && (#[trigger] t[i]).0@ == sales[k].collection@ by {
        assert(counted(sales[k], false, denom));
    }
}

/// The volume of the collection `collection` has one entry per currency;
/// every sale of that collection has the entry of its price's currency, and
/// each entry is the sum of the prices of the collection's sales in it.
pub proof fn law_volume_by_collection(sales: Seq<SaleRecord>, collection: Seq<char>)
    ensures
        ({
            let t = volumes(sales, true, collection);
            &&& forall|i: int, j: int| 0 <= i < j < t.len() ==> (#[trigger] t[i]).0@ != (#[trigger] t[j]).0@
            &&& forall|i: int| 0 <= i < t.len() ==> (#[trigger] t[i]).1 == sum_of(
                sales,
                |r: SaleRecord| if r.collection@ == collection && r.price.denom@ == t[i].0@ { r.price.amount as int } else { 0 },
            )
            &&& forall|k: int| 0 <= k < sales.len() && (#[trigger] sales[k]).collection@ == collection ==> exists|i: int|
                0 <= i < t.len() && (#[trigger] t[i]).0@ == sales[k].price.denom@
        }),
{
    law_volumes_are_sums(sales, true, collection);
    let t = volumes(sales, true, collection);
    assert forall|i: int| 0 <= i < t.len() implies (#[trigger] t[i]).1 == sum_of(
        sales,
        |r: SaleRecord| if r.collection@ == collection && r.price.denom@ == t[i].0@ { r.price.amount as int } else { 0 },
    ) by {
        assert(volume_term(true, collection, t[i].0@) =~= (|r: SaleRecord| if r.collection@ == collection && r.price.denom@ == t[i].0@ {
            r.price.amount as int
        } else {
            0
        }));
    }
    assert forall|k: int| 0 <= k < sales.len() && (#[trigger] sales[k]).collection@ == collection implies exists|i: int|
        0 <= i < t.len() && (#[trigger] t[i]).0@ == sales[k].price.denom@ by {
        assert(counted(sales[k], true, collection));
    }
}

} // verus!
