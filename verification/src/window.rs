//! Bounded first-in-first-out windows, as sequences.
//!
//! The noise history and the pre-trigger buffer are both such windows: each
//! holds the most recent items, up to its capacity, oldest first.

use vstd::prelude::*;

verus! {

/// The last `capacity` items of `items`, in their order; all of them where
/// there are no more than that.
pub open spec fn keep_last<T>(items: Seq<T>, capacity: nat) -> Seq<T> {
    if items.len() <= capacity {
        items
    } else {
        items.skip(items.len() - capacity)
    }
}

/// The window after `item` arrives: the item is appended, and what then is
/// over capacity leaves from the front.
pub open spec fn window_push<T>(window: Seq<T>, capacity: nat, item: T) -> Seq<T> {
    keep_last(window.push(item), capacity)
}

/// The window after all of `items` have arrived in order, starting empty.
pub open spec fn window_of<T>(capacity: nat, items: Seq<T>) -> Seq<T>
    decreases items.len(),
{
    if items.len() == 0 {
        Seq::empty()
    } else {
        window_push(window_of(capacity, items.drop_last()), capacity, items.last())
    }
}

/// A window within its capacity stays within it when an item arrives. Below
/// capacity nothing leaves; at capacity exactly the oldest item leaves and
/// all others keep their order.
pub proof fn lemma_push_is_fifo<T>(window: Seq<T>, capacity: nat, item: T)
    requires
        window.len() <= capacity,
    ensures
        window_push(window, capacity, item).len() <= capacity,
        window.len() < capacity ==> window_push(window, capacity, item) == window.push(item),
        window.len() == capacity && capacity > 0 ==> window_push(window, capacity, item)
            == window.drop_first().push(item),
        capacity == 0 ==> window_push(window, capacity, item) == Seq::<T>::empty(),
{
    let pushed = window.push(item);
    if window.len() == capacity && capacity > 0 {
        assert(pushed.skip(1) =~= window.drop_first().push(item));
    }
    if capacity == 0 {
        assert(pushed.skip(1) =~= Seq::<T>::empty());
    }
}

/// After any sequence of arrivals the window holds the most recent
/// `capacity` of them, in the order in which they arrived, and never more.
pub proof fn lemma_window_holds_latest<T>(capacity: nat, items: Seq<T>)
    ensures
        window_of(capacity, items) == keep_last(items, capacity),
        window_of(capacity, items).len() <= capacity,
        window_of(capacity, items).len() <= items.len(),
    decreases items.len(),
{
    if items.len() == 0 {
        assert(window_of(capacity, items) =~= keep_last(items, capacity));
    } else {
        let front = items.drop_last();
        lemma_window_holds_latest(capacity, front);
        let before = keep_last(front, capacity);
        assert(window_of(capacity, items) == keep_last(before.push(items.last()), capacity));
        assert(keep_last(before.push(items.last()), capacity) =~= keep_last(items, capacity));
    }
}

} // verus!
