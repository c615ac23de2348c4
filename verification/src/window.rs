//! Bounded first-in-first-out windows over sequences: the mathematics of the
//! store, free of any data structure.

use vstd::prelude::*;

verus! {

/// The newest `n` items of `items`, oldest first; all of them if there are
/// no more than `n`.
pub open spec fn keep_last<T>(items: Seq<T>, n: nat) -> Seq<T> {
    if items.len() <= n {
        items
    } else {
        items.subrange(items.len() - n, items.len() as int)
    }
}

/// A window of at most `capacity` items after `item` has arrived: the item
/// becomes the newest, and the oldest leaves if there is no room.
pub open spec fn append<T>(items: Seq<T>, item: T, capacity: nat) -> Seq<T> {
    keep_last(items.push(item), capacity)
}

/// The window after each of `arrivals` has been appended in turn.
pub open spec fn append_all<T>(items: Seq<T>, arrivals: Seq<T>, capacity: nat) -> Seq<T>
    decreases arrivals.len(),
{
    if arrivals.len() == 0 {
        items
    } else {
        append(append_all(items, arrivals.drop_last(), capacity), arrivals.last(), capacity)
    }
}

/// A window never outgrows its capacity.
pub proof fn lemma_append_len<T>(items: Seq<T>, item: T, capacity: nat)
    ensures
        append(items, item, capacity).len() <= capacity,
        items.len() < capacity ==> append(items, item, capacity) == items.push(item),
        items.len() == capacity && capacity > 0 ==> append(items, item, capacity)
            == items.drop_first().push(item),
{
    if items.len() == capacity && capacity > 0 {
        assert(append(items, item, capacity) =~= items.drop_first().push(item));
    }
}

/// Keeping the newest `n` of what were already the newest `n` of a longer
/// history loses nothing that the longer history would have kept.
pub proof fn lemma_keep_last_push<T>(items: Seq<T>, item: T, n: nat)
    ensures
        keep_last(keep_last(items, n).push(item), n) == keep_last(items.push(item), n),
{
    assert(keep_last(keep_last(items, n).push(item), n) =~= keep_last(items.push(item), n));
}

/// Bounded first-in-first-out: whatever arrives, the window holds at most
/// `capacity` items, and they are exactly the newest `capacity` (or fewer)
/// of all that the window held and that arrived since, in arrival order. An
/// item older than that is gone.
pub proof fn lemma_bounded_fifo<T>(items: Seq<T>, arrivals: Seq<T>, capacity: nat)
    requires
        items.len() <= capacity,
    ensures
        append_all(items, arrivals, capacity).len() <= capacity,
        append_all(items, arrivals, capacity) == keep_last(items + arrivals, capacity),
    decreases arrivals.len(),
{
    if arrivals.len() == 0 {
        assert(items + arrivals =~= items);
    } else {
        let earlier = arrivals.drop_last();
        lemma_bounded_fifo(items, earlier, capacity);
        lemma_keep_last_push(items + earlier, arrivals.last(), capacity);
        assert((items + earlier).push(arrivals.last()) =~= items + arrivals);
    }
}

/// What a tail query answers: everything when `n` is at least the length,
/// nothing when `n` is zero, and otherwise exactly the newest `n` items in
/// their order.
pub proof fn lemma_tail_query<T>(items: Seq<T>, n: nat)
    ensures
        keep_last(items, n).len() == if n <= items.len() { n } else { items.len() },
        n >= items.len() ==> keep_last(items, n) == items,
        n == 0 ==> keep_last(items, n) == Seq::<T>::empty(),
        forall|i: int|
            0 <= i < keep_last(items, n).len() ==> #[trigger] keep_last(items, n)[i]
                == items[items.len() - keep_last(items, n).len() + i],
{
    if n == 0 {
        assert(keep_last(items, n) =~= Seq::<T>::empty());
    }
}

} // verus!
