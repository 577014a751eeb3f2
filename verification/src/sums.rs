//! Sums over sequences, and how they behave under the sequence operations
//! the marketplace uses.
use vstd::prelude::*;

verus! {

/// The sum of `f` over the elements of `s`.
pub open spec fn sum_of<A>(s: Seq<A>, f: spec_fn(A) -> int) -> int
    decreases s.len(),
{
    if s.len() == 0 {
        0
    } else {
        sum_of(s.drop_last(), f) + f(s.last())
    }
}

pub proof fn lemma_sum_push<A>(s: Seq<A>, x: A, f: spec_fn(A) -> int)
    ensures
        sum_of(s.push(x), f) == sum_of(s, f) + f(x),
{
    assert(s.push(x).drop_last() =~= s);
}

pub proof fn lemma_sum_concat<A>(a: Seq<A>, b: Seq<A>, f: spec_fn(A) -> int)
    ensures
        sum_of(a + b, f) == sum_of(a, f) + sum_of(b, f),
    decreases b.len(),
{
    if b.len() == 0 {
        assert(a + b =~= a);
    } else {
        lemma_sum_concat(a, b.drop_last(), f);
        assert((a + b).drop_last() =~= a + b.drop_last());
    }
}

pub proof fn lemma_sum_remove<A>(s: Seq<A>, j: int, f: spec_fn(A) -> int)
    requires
        0 <= j < s.len(),
    ensures
        sum_of(s.remove(j), f) == sum_of(s, f) - f(s[j]),
{
    let a = s.take(j);
    let b = s.skip(j + 1);
    assert(s.remove(j) =~= a + b);
    assert(s =~= a.push(s[j]) + b);
    lemma_sum_concat(a, b, f);
    lemma_sum_concat(a.push(s[j]), b, f);
    lemma_sum_push(a, s[j], f);
}

pub proof fn lemma_sum_filter_split<A>(s: Seq<A>, p: spec_fn(A) -> bool, f: spec_fn(A) -> int)
    ensures
        sum_of(s, f) == sum_of(s.filter(p), f) + sum_of(s.filter(|x: A| !p(x)), f),
    decreases s.len(),
{
    reveal_with_fuel(Seq::filter, 1);
    if s.len() > 0 {
        lemma_sum_filter_split(s.drop_last(), p, f);
        let q = |x: A| !p(x);
        if p(s.last()) {
            lemma_sum_push(s.drop_last().filter(p), s.last(), f);
        } else {
            lemma_sum_push(s.drop_last().filter(q), s.last(), f);
        }
    }
}

pub proof fn lemma_sum_map<A, B>(s: Seq<A>, g: spec_fn(A) -> B, f: spec_fn(B) -> int)
    ensures
        sum_of(s.map_values(g), f) == sum_of(s, |x: A| f(g(x))),
    decreases s.len(),
{
    if s.len() > 0 {
        lemma_sum_map(s.drop_last(), g, f);
        assert(s.map_values(g).drop_last() =~= s.drop_last().map_values(g));
    }
}

/// Sums of pointwise-equal functions are equal.
pub proof fn lemma_sum_ext<A>(s: Seq<A>, f: spec_fn(A) -> int, g: spec_fn(A) -> int)
    requires
        forall|i: int| 0 <= i < s.len() ==> f(#[trigger] s[i]) == g(s[i]),
    ensures
        sum_of(s, f) == sum_of(s, g),
    decreases s.len(),
{
    if s.len() > 0 {
        lemma_sum_ext(s.drop_last(), f, g);
    }
}

/// Removing an element that does not satisfy `p` does not change what `p`
/// selects.
pub proof fn lemma_filter_remove_unselected<A>(s: Seq<A>, j: int, p: spec_fn(A) -> bool)
    requires
        0 <= j < s.len(),
        !p(s[j]),
    ensures
        s.remove(j).filter(p) == s.filter(p),
{
    let a = s.take(j);
    let b = s.skip(j + 1);
    let one = seq![s[j]];
    Seq::filter_distributes_over_add(a, b, p);
    Seq::filter_distributes_over_add(a + one, b, p);
    Seq::filter_distributes_over_add(a, one, p);
    assert(s.remove(j) =~= a + b);
    assert(s =~= (a + one) + b);
    reveal_with_fuel(Seq::filter, 2);
    assert(one.drop_last() =~= Seq::<A>::empty());
    assert(one.filter(p) =~= Seq::<A>::empty());
    assert((a + one).filter(p) =~= a.filter(p));
}

} // verus!
