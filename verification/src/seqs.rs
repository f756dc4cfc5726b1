//! Facts about filtered sequences that the stores rest on.

use vstd::prelude::*;

verus! {

/// Filtering nothing leaves nothing.
pub proof fn lemma_filter_empty<T>(keep: spec_fn(T) -> bool)
    ensures
        Seq::<T>::empty().filter(keep) == Seq::<T>::empty(),
{
    reveal(Seq::filter);
}

/// Filtering one item more keeps it behind the others or drops it.
pub proof fn lemma_filter_step<T>(items: Seq<T>, upto: int, keep: spec_fn(T) -> bool)
    requires
        0 <= upto < items.len(),
    ensures
        items.take(upto + 1).filter(keep) == if keep(items[upto]) {
            items.take(upto).filter(keep).push(items[upto])
        } else {
            items.take(upto).filter(keep)
        },
{
    reveal(Seq::filter);
    assert(items.take(upto + 1).drop_last() == items.take(upto));
    assert(items.take(upto + 1).last() == items[upto]);
}

/// The positions of the items that a filter keeps, in rising order.
pub open spec fn kept_positions<T>(items: Seq<T>, keep: spec_fn(T) -> bool) -> Seq<int>
    decreases items.len(),
{
    if items.len() == 0 {
        Seq::empty()
    } else {
        let front = kept_positions(items.drop_last(), keep);
        if keep(items.last()) {
            front.push(items.len() - 1)
        } else {
            front
        }
    }
}

/// What a filter keeps stands in the sequence it was taken from, in the same order:
/// the `k`-th item kept is the item at the `k`-th kept position, it passes
/// the filter, and the kept positions rise.
pub proof fn lemma_filter_is_subsequence<T>(items: Seq<T>, keep: spec_fn(T) -> bool)
    ensures
        kept_positions(items, keep).len() == items.filter(keep).len(),
        forall|k: int|
            0 <= k < items.filter(keep).len() ==> 0 <= #[trigger] kept_positions(items, keep)[k]
                < items.len() && items.filter(keep)[k] == items[kept_positions(items, keep)[k]]
                && keep(items.filter(keep)[k]),
        forall|k: int, l: int|
            0 <= k < l < items.filter(keep).len() ==> #[trigger] kept_positions(items, keep)[k]
                < #[trigger] kept_positions(items, keep)[l],
    decreases items.len(),
{
    reveal(Seq::filter);
    if items.len() > 0 {
        let front = items.drop_last();
        lemma_filter_is_subsequence(front, keep);
        let at0 = kept_positions(front, keep);
        let at = kept_positions(items, keep);
        assert forall|k: int| 0 <= k < items.filter(keep).len() implies 0 <= #[trigger] at[k]
            < items.len() && items.filter(keep)[k] == items[at[k]] && keep(
            items.filter(keep)[k],
        ) by {
            if k < at0.len() {
                assert(at[k] == at0[k]);
                assert(front[at0[k]] == items[at0[k]]);
            }
        }
        assert forall|k: int, l: int| 0 <= k < l < items.filter(keep).len() implies #[trigger] at[k]
            < #[trigger] at[l] by {
            assert(at[k] == at0[k]);
            if l < at0.len() {
                assert(at[l] == at0[l]);
            }
        }
    }
}

/// A filter keeps every item that passes it: an item of the sequence that
/// passes stands in what is kept.
pub proof fn lemma_filter_keeps<T>(items: Seq<T>, keep: spec_fn(T) -> bool, at: int)
    requires
        0 <= at < items.len(),
        keep(items[at]),
    ensures
        items.filter(keep).contains(items[at]),
    decreases items.len(),
{
    reveal(Seq::filter);
    let front = items.drop_last();
    if at == items.len() - 1 {
        assert(items.filter(keep).last() == items[at]);
    } else {
        lemma_filter_keeps(front, keep, at);
        let k = choose|k: int| 0 <= k < front.filter(keep).len() && front.filter(keep)[k] == front[at];
        assert(items.filter(keep)[k] == items[at]);
    }
}

} // verus!
