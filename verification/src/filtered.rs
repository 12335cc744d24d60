//! What a filter leaves of a sequence.

use vstd::prelude::*;

verus! {

/// Every item that a filter leaves is an item of the sequence, and two items
/// that it leaves stand in the order they stood in.
pub proof fn lemma_filter_order<A>(items: Seq<A>, keep: spec_fn(A) -> bool)
    ensures
        forall|i: int|
            0 <= i < items.filter(keep).len() ==> items.contains(#[trigger] items.filter(keep)[i]),
        forall|i: int, j: int|
            0 <= i < j < items.filter(keep).len() ==> exists|a: int, b: int|
                0 <= a < b < items.len() && items[a] == #[trigger] items.filter(keep)[i]
                    && items[b] == #[trigger] items.filter(keep)[j],
    decreases items.len(),
{
    reveal(Seq::filter);
    let left = items.filter(keep);
    if items.len() > 0 {
        let shorter = items.drop_last();
        let inner = shorter.filter(keep);
        lemma_filter_order(shorter, keep);
        assert forall|i: int| 0 <= i < left.len() implies items.contains(#[trigger] left[i]) by {
            if i < inner.len() {
                assert(shorter.contains(inner[i]));
                let k = choose|k: int| 0 <= k < shorter.len() && shorter[k] == inner[i];
                assert(items[k] == left[i]);
            } else {
                assert(items[items.len() - 1] == left[i]);
            }
        }
        assert forall|i: int, j: int| 0 <= i < j < left.len() implies exists|a: int, b: int|
            0 <= a < b < items.len() && items[a] == #[trigger] left[i] && items[b]
                == #[trigger] left[j] by {
            if j < inner.len() {
                let (a, b) = choose|a: int, b: int|
                    0 <= a < b < shorter.len() && shorter[a] == inner[i] && shorter[b] == inner[j];
                assert(items[a] == left[i] && items[b] == left[j]);
            } else {
                assert(shorter.contains(inner[i]));
                let k = choose|k: int| 0 <= k < shorter.len() && shorter[k] == inner[i];
                assert(items[k] == left[i] && items[items.len() - 1] == left[j]);
            }
        }
    }
}

/// A filter of rows that no two of which are equal leaves no two equal rows.
pub proof fn lemma_filter_distinct<A>(items: Seq<A>, keep: spec_fn(A) -> bool)
    requires
        forall|i: int, j: int|
            0 <= i < j < items.len() ==> #[trigger] items[i] != #[trigger] items[j],
    ensures
        forall|i: int, j: int|
            0 <= i < j < items.filter(keep).len() ==> #[trigger] items.filter(keep)[i]
                != #[trigger] items.filter(keep)[j],
{
    lemma_filter_order(items, keep);
    let left = items.filter(keep);
    assert forall|i: int, j: int| 0 <= i < j < left.len() implies #[trigger] left[i]
        != #[trigger] left[j] by {
        let (a, b) = choose|a: int, b: int|
            0 <= a < b < items.len() && items[a] == left[i] && items[b] == left[j];
    }
}

} // verus!
