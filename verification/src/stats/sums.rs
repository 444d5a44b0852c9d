//! Sums over sequences.
use vstd::prelude::*;

verus! {

/// The sum of what a function gives for each item.
pub open spec fn sum_by<A>(items: Seq<A>, f: spec_fn(A) -> nat) -> nat
    decreases items.len(),
{
    if items.len() == 0 {
        0
    } else {
        sum_by(items.drop_last(), f) + f(items.last())
    }
}

/// The items so far sum up to no more than all of them.
pub proof fn lemma_sum_prefix<A>(items: Seq<A>, f: spec_fn(A) -> nat, n: int)
    requires
        0 <= n <= items.len(),
    ensures
        sum_by(items.take(n), f) <= sum_by(items, f),
    decreases items.len(),
{
    if n == items.len() {
        assert(items.take(n) =~= items);
    } else {
        lemma_sum_prefix(items.drop_last(), f, n);
        assert(items.drop_last().take(n) =~= items.take(n));
    }
}

/// One more item.
pub proof fn lemma_sum_next<A>(items: Seq<A>, f: spec_fn(A) -> nat, n: int)
    requires
        0 <= n < items.len(),
    ensures
        sum_by(items.take(n + 1), f) == sum_by(items.take(n), f) + f(items[n]),
        sum_by(items.take(n + 1), f) <= sum_by(items, f),
{
    assert(items.take(n + 1).drop_last() =~= items.take(n));
    lemma_sum_prefix(items, f, n + 1);
}

/// The items of two sequences sum up to both sums.
pub proof fn lemma_sum_concat<A>(a: Seq<A>, b: Seq<A>, f: spec_fn(A) -> nat)
    ensures
        sum_by(a + b, f) == sum_by(a, f) + sum_by(b, f),
    decreases b.len(),
{
    if b.len() == 0 {
        assert(a + b =~= a);
    } else {
        lemma_sum_concat(a, b.drop_last(), f);
        assert((a + b).drop_last() =~= a + b.drop_last());
    }
}

/// A sum adds up what the function gives for the items, one after the other.
pub proof fn sums_add_up_item_by_item<A>(items: Seq<A>, f: spec_fn(A) -> nat)
    ensures
        sum_by(items, f) == items.fold_left(0nat, |sum: nat, item: A| sum + f(item)),
    decreases items.len(),
{
    if items.len() > 0 {
        sums_add_up_item_by_item(items.drop_last(), f);
    }
}

/// Functions that give the same for each item have the same sum.
pub proof fn lemma_sum_same<A>(items: Seq<A>, f: spec_fn(A) -> nat, g: spec_fn(A) -> nat)
    requires
        forall|k: int| 0 <= k < items.len() ==> f(#[trigger] items[k]) == g(items[k]),
    ensures
        sum_by(items, f) == sum_by(items, g),
    decreases items.len(),
{
    if items.len() > 0 {
        let head = items.drop_last();
        assert forall|k: int| 0 <= k < head.len() implies f(#[trigger] head[k]) == g(head[k]) by {
            assert(head[k] == items[k]);
        }
        lemma_sum_same(head, f, g);
        assert(f(items[items.len() - 1]) == g(items[items.len() - 1]));
    }
}

} // verus!
