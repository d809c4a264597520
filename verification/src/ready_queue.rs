//! The ready queue: a bounded max-heap of scheduling keys, backed by
//! `heapless::BinaryHeap`.
//!
//! The heap itself is an outside data structure, so it is held behind a small
//! trusted boundary: the key multiset it contains is given a name
//! (`queue_contents`), and each heap method the scheduler calls gets a wrapper
//! whose contract states, over that name, what the heap's source shows.
//!
//! A key is the triple `(priority, sequence value, task id)`; the heap orders
//! keys by the standard lexicographic tuple order, so the task with the
//! greatest priority comes out first and, among equal priorities, the greatest
//! sequence value (the earliest-created task) wins.

use vstd::multiset::Multiset;
use vstd::prelude::*;

verus! {

/// A scheduling key: `(priority, sequence value, task id)`.
pub type SchedKey = (usize, usize, u8);

/// Lexicographic order on scheduling keys, matching the `Ord` instance of
/// tuples that the heap sorts by.
pub open spec fn key_le(a: SchedKey, b: SchedKey) -> bool {
    ||| a.0 < b.0
    ||| (a.0 == b.0 && a.1 < b.1)
    ||| (a.0 == b.0 && a.1 == b.1 && a.2 <= b.2)
}

#[verifier::external_type_specification]
#[verifier::external_body]
#[verifier::reject_recursive_types(T)]
#[verifier::reject_recursive_types(K)]
pub struct ExBinaryHeap<T, K, const N: usize>(heapless::BinaryHeap<T, K, N>);

#[verifier::external_type_specification]
#[verifier::external_body]
pub struct ExMax(heapless::binary_heap::Max);

/// The bounded max-heap of scheduling keys that backs the ready queue.
pub type KeyHeap = heapless::BinaryHeap<SchedKey, heapless::binary_heap::Max, 50>;

/// The multiset of keys a heap currently holds.
pub uninterp spec fn queue_contents(q: KeyHeap) -> Multiset<SchedKey>;

/// Relies on `heapless::BinaryHeap::new`: creates an empty heap.
#[verifier::external_body]
pub fn queue_new() -> (q: KeyHeap)
    ensures
        queue_contents(q) == Multiset::<SchedKey>::empty(),
{
    heapless::BinaryHeap::new()
}

/// Relies on `heapless::BinaryHeap::push`: fails, handing the item back,
/// exactly when the heap already holds its capacity of items; otherwise adds
/// the item.
#[verifier::external_body]
pub fn queue_push(q: &mut KeyHeap, item: SchedKey) -> (r: Result<(), SchedKey>)
    ensures
        match r {
            Ok(()) => queue_contents(*old(q)).len() < 50
                && queue_contents(*final(q)) == queue_contents(*old(q)).insert(item),
            Err(it) => it == item && queue_contents(*old(q)).len() >= 50
                && queue_contents(*final(q)) == queue_contents(*old(q)),
        },
{
    q.push(item)
}

/// Relies on `heapless::BinaryHeap::pop` on a `Max` heap: returns `None`
/// exactly when the heap is empty, and otherwise removes and returns a
/// greatest item in the lexicographic tuple order.
#[verifier::external_body]
pub fn queue_pop(q: &mut KeyHeap) -> (r: Option<SchedKey>)
    ensures
        match r {
            None => queue_contents(*old(q)).len() == 0
                && queue_contents(*final(q)) == queue_contents(*old(q)),
            Some(k) => queue_contents(*old(q)).count(k) > 0
                && queue_contents(*final(q)) == queue_contents(*old(q)).remove(k)
                && forall|x: SchedKey|
                    queue_contents(*old(q)).count(x) > 0 ==> key_le(x, k),
        },
{
    q.pop()
}

} // verus!
