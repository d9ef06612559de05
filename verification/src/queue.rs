//! The bounded FIFO queue of `crossbeam_queue`, as the library uses it: items are
//! `u64` values, and every operation is made with exclusive access.
use vstd::prelude::*;
use crossbeam_queue::ArrayQueue;

verus! {

#[verifier::external_type_specification]
#[verifier::external_body]
#[verifier::reject_recursive_types(T)]
pub struct ExArrayQueue<T>(ArrayQueue<T>);

/// The items a queue holds, oldest first.
pub uninterp spec fn array_queue_items(q: ArrayQueue<u64>) -> Seq<u64>;

/// The capacity a queue was created with.
pub uninterp spec fn array_queue_capacity(q: ArrayQueue<u64>) -> nat;

/// A queue whose item count respects its capacity.
pub open spec fn queue_wf(q: ArrayQueue<u64>) -> bool {
    &&& 0 < array_queue_capacity(q)
    &&& array_queue_items(q).len() <= array_queue_capacity(q)
}

/// `ArrayQueue::new`: an empty queue of the given capacity. The crate panics on a
/// zero capacity and on one whose next power of two above it does not fit its
/// index type (64 or, without 64-bit atomics, pointer-sized bits); both are
/// excluded.
#[verifier::external_body]
pub(crate) fn queue_new(cap: usize) -> (q: ArrayQueue<u64>)
    requires
        0 < cap < 0x8000_0000,
    ensures
        array_queue_items(q) == Seq::<u64>::empty(),
        array_queue_capacity(q) == cap,
{
    ArrayQueue::new(cap)
}

/// `ArrayQueue::push`: appends at the back when there is room, and otherwise hands
/// the value back, leaving the queue as it was.
#[verifier::external_body]
pub(crate) fn queue_push(q: &mut ArrayQueue<u64>, value: u64) -> (res: Result<(), u64>)
    ensures
        array_queue_capacity(*final(q)) == array_queue_capacity(*old(q)),
        array_queue_items(*old(q)).len() < array_queue_capacity(*old(q)) ==> {
            &&& res is Ok
            &&& array_queue_items(*final(q)) == array_queue_items(*old(q)).push(value)
        },
        array_queue_items(*old(q)).len() >= array_queue_capacity(*old(q)) ==> {
            &&& res == Err::<(), u64>(value)
            &&& array_queue_items(*final(q)) == array_queue_items(*old(q))
        },
{
    q.push(value)
}

/// `ArrayQueue::pop`: removes and returns the oldest item, or `None` when empty.
#[verifier::external_body]
pub(crate) fn queue_pop(q: &mut ArrayQueue<u64>) -> (res: Option<u64>)
    ensures
        array_queue_capacity(*final(q)) == array_queue_capacity(*old(q)),
        array_queue_items(*old(q)).len() == 0 ==> {
            &&& res is None
            &&& array_queue_items(*final(q)) == array_queue_items(*old(q))
        },
        array_queue_items(*old(q)).len() > 0 ==> {
            &&& res == Some(array_queue_items(*old(q))[0])
            &&& array_queue_items(*final(q)) == array_queue_items(*old(q)).drop_first()
        },
{
    q.pop()
}

/// `ArrayQueue::len`: the number of items held.
#[verifier::external_body]
pub(crate) fn queue_len(q: &ArrayQueue<u64>) -> (n: usize)
    ensures
        n == array_queue_items(*q).len(),
{
    q.len()
}

/// `ArrayQueue::is_empty`: whether the queue holds no item.
#[verifier::external_body]
pub(crate) fn queue_is_empty(q: &ArrayQueue<u64>) -> (b: bool)
    ensures
        b == (array_queue_items(*q).len() == 0),
{
    q.is_empty()
}

} // verus!
