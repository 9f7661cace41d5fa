//! Sums over the items of a sequence, and the fact that they do not depend
//! on the order of the items.

use vstd::multiset::*;
use vstd::prelude::*;
use vstd::seq_lib::*;

verus! {

/// The sum of `measure` over the items.
pub open spec fn total_of<T>(items: Seq<T>, measure: spec_fn(T) -> nat) -> nat
    decreases items.len(),
{
    if items.len() == 0 {
        0
    } else {
        total_of(items.drop_last(), measure) + measure(items.last())
    }
}

/// Taking one item out lowers the sum by its measure.
pub proof fn lemma_total_remove<T>(items: Seq<T>, at: int, measure: spec_fn(T) -> nat)
    requires
        0 <= at < items.len(),
    ensures
        total_of(items, measure) == total_of(items.remove(at), measure) + measure(items[at]),
    decreases items.len(),
{
    if at == items.len() - 1 {
    } else {
        lemma_total_remove(items.drop_last(), at, measure);
        assert(items.remove(at).drop_last() == items.drop_last().remove(at));
    }
}

/// A sum over items is the same for every arrangement of them.
pub proof fn lemma_total_ignores_order<T>(a: Seq<T>, b: Seq<T>, measure: spec_fn(T) -> nat)
    requires
        a.to_multiset() == b.to_multiset(),
    ensures
        total_of(a, measure) == total_of(b, measure),
    decreases a.len(),
{
    broadcast use group_multiset_axioms;

    to_multiset_len(a);
    to_multiset_len(b);
    if a.len() > 0 {
        let x = a.last();
        let rest = a.drop_last();
        assert(a.contains(x)) by {
            assert(a[a.len() - 1] == x);
        }
        to_multiset_contains(a, x);
        to_multiset_contains(b, x);
        let at = choose|i: int| 0 <= i < b.len() && b[i] == x;
        to_multiset_remove(a, a.len() - 1);
        to_multiset_remove(b, at);
        lemma_total_ignores_order(rest, b.remove(at), measure);
        lemma_total_remove(b, at, measure);
    }
}

/// The sum over two sequences laid end to end is the sum of their sums.
pub proof fn lemma_total_concat<T>(a: Seq<T>, b: Seq<T>, measure: spec_fn(T) -> nat)
    ensures
        total_of(a + b, measure) == total_of(a, measure) + total_of(b, measure),
    decreases b.len(),
{
    if b.len() == 0 {
    } else {
        lemma_total_concat(a, b.drop_last(), measure);
        assert((a + b).drop_last() == a + b.drop_last());
    }
}

/// A sum of zeros is zero, a sum of ones is the number of items, and a sum
/// of zeros and ones lies in between.
pub proof fn lemma_total_bounds<T>(items: Seq<T>, measure: spec_fn(T) -> nat)
    ensures
        (forall|i: int| 0 <= i < items.len() ==> measure(#[trigger] items[i]) == 0) ==> total_of(
            items,
            measure,
        ) == 0,
        (forall|i: int| 0 <= i < items.len() ==> measure(#[trigger] items[i]) == 1) ==> total_of(
            items,
            measure,
        ) == items.len(),
        (forall|i: int| 0 <= i < items.len() ==> measure(#[trigger] items[i]) <= 1) ==> total_of(
            items,
            measure,
        ) <= items.len(),
    decreases items.len(),
{
    if items.len() > 0 {
        let rest = items.drop_last();
        lemma_total_bounds(rest, measure);
    }
}

} // verus!
