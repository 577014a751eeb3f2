//! Splitting a sale's price between a collection's royalty members and the
//! seller.
use vstd::prelude::*;

use crate::decimal::{ratio, DECIMAL_FRACTIONAL};
use crate::encode::clone_address;
use crate::model::{
    member_share, royalty_amount, royalty_payments, seller_amount, shares_total, split_overflows,
};
use crate::types::{Asset, Collection, Payment, UserInfo};

verus! {

/// A share of a non-negative royalty is non-negative.
pub proof fn lemma_share_nonneg(royalty: int, member: UserInfo)
    requires
        royalty >= 0,
    ensures
        member_share(royalty, member) >= 0,
{
    let a = member.portion.atomics as int;
    assert(royalty * a >= 0) by (nonlinear_arith)
        requires
            royalty >= 0,
            a >= 0,
    ;
    assert(ratio(royalty, a, DECIMAL_FRACTIONAL as int) >= 0);
}

/// Adding a member adds its share to the total.
pub proof fn lemma_shares_total_take(royalty: int, members: Seq<UserInfo>, k: int)
    requires
        0 <= k < members.len(),
    ensures
        shares_total(royalty, members.take(k + 1)) == shares_total(royalty, members.take(k))
            + member_share(royalty, members[k]),
{
    assert(members.take(k + 1).drop_last() =~= members.take(k));
}

/// With a non-negative royalty, the total over all members is at least the
/// total over the first `k`.
pub proof fn lemma_shares_total_prefix(royalty: int, members: Seq<UserInfo>, k: int)
    requires
        royalty >= 0,
        0 <= k <= members.len(),
    ensures
        shares_total(royalty, members) >= shares_total(royalty, members.take(k)),
    decreases members.len() - k,
{
    if k < members.len() {
        lemma_shares_total_take(royalty, members, k);
        lemma_share_nonneg(royalty, members[k]);
        lemma_shares_total_prefix(royalty, members, k + 1);
    } else {
        assert(members.take(k) =~= members);
    }
}

/// The royalty payments of a sale at `price` in `collection`, and what is
/// left for the seller; `None` where the split exceeds what can be held or
/// the shares exceed the price.
pub fn split_price(collection: &Collection, price: &Asset, token_address: &Option<String>) -> (r: Option<(Vec<Payment>, u128)>)
    ensures
        r is None <==> split_overflows(price.amount, *collection),
        r matches Some((payments, rest)) ==> {
            &&& payments@ == royalty_payments(*collection, *price, *token_address)
            &&& rest == seller_amount(*collection, price.amount)
        },
{
    let ghost members = collection.members@;
    let royalty = match collection.royalty_portion.checked_mul_floor(price.amount) {
        Some(v) => v,
        None => return None,
    };
    assert(royalty == royalty_amount(price.amount, collection.royalty_portion));
    let mut payments: Vec<Payment> = Vec::new();
    let mut total: u128 = 0;
    let n = collection.members.len();
    assert(members.take(0) =~= Seq::<UserInfo>::empty());
    for i in 0..n
        invariant
            n == members.len(),
            members == collection.members@,
            royalty == royalty_amount(price.amount, collection.royalty_portion),
            total == shares_total(royalty as int, members.take(i as int)),
            payments@.len() == i,
            forall|j: int| 0 <= j < i ==> member_share(royalty as int, #[trigger] members[j]) <= u128::MAX,
            forall|j: int| 0 <= j < i ==> #[trigger] payments@[j] == (Payment::Funds {
                recipient: members[j].address,
                asset: Asset { denom: price.denom, amount: member_share(royalty as int, members[j]) as u128 },
                token_address: *token_address,
            }),
    {
        let member = &collection.members[i];
        let share = match member.portion.checked_mul_floor(royalty) {
            Some(v) => v,
            None => {
                assert(member_share(royalty as int, members[i as int]) > u128::MAX);
                return None;
            },
        };
        proof {
            lemma_shares_total_take(royalty as int, members, i as int);
        }
        total = match total.checked_add(share) {
            Some(t) => t,
            None => {
                proof {
                    lemma_shares_total_prefix(royalty as int, members, i + 1);
                }
                return None;
            },
        };
        payments.push(Payment::Funds {
            recipient: member.address.clone(),
            asset: Asset { denom: price.denom.clone(), amount: share },
            token_address: clone_address(token_address),
        });
    }
    assert(members.take(n as int) =~= members);
    if total > price.amount {
        return None;
    }
    proof {
        assert(payments@ =~= royalty_payments(*collection, *price, *token_address));
    }
    Some((payments, price.amount - total))
}

} // verus!
