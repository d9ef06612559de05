//! Task wakers: `core::task::Waker` and the single-slot `AtomicWaker` of
//! `futures_util`, as the library uses them (with exclusive access).
use vstd::prelude::*;
use core::task::Waker;
use futures_util::task::AtomicWaker;

verus! {

#[verifier::external_type_specification]
#[verifier::external_body]
pub struct ExWaker(Waker);

#[verifier::external_type_specification]
#[verifier::external_body]
pub struct ExAtomicWaker(AtomicWaker);

/// Whether the slot currently holds a registered waker.
pub uninterp spec fn atomic_waker_holds(w: AtomicWaker) -> bool;

/// `Waker::will_wake`: whether two wakers wake the same task. It compares the
/// wakers' data pointers and vtables, so nothing is stated of its result.
#[verifier::external_body]
pub(crate) fn waker_will_wake(a: &Waker, b: &Waker) -> bool {
    a.will_wake(b)
}

/// `Waker::clone`: a waker for the same task. Which task that is cannot be
/// observed here, so nothing is stated of the result.
#[verifier::external_body]
pub(crate) fn waker_clone(w: &Waker) -> Waker {
    w.clone()
}

/// `AtomicWaker::new`: an empty slot.
#[verifier::external_body]
pub(crate) fn atomic_waker_new() -> (w: AtomicWaker)
    ensures
        !atomic_waker_holds(w),
{
    AtomicWaker::new()
}

/// `AtomicWaker::register`: stores (a clone of) `waker` in the slot, in place of
/// any earlier one. Without a concurrent `wake`, the slot then holds a waker.
#[verifier::external_body]
pub(crate) fn atomic_waker_register(w: &mut AtomicWaker, waker: &Waker)
    ensures
        atomic_waker_holds(*final(w)),
{
    w.register(waker)
}

/// `AtomicWaker::take`: empties the slot and returns what it held.
#[verifier::external_body]
pub(crate) fn atomic_waker_take(w: &mut AtomicWaker) -> (res: Option<Waker>)
    ensures
        res is Some == atomic_waker_holds(*old(w)),
        !atomic_waker_holds(*final(w)),
{
    w.take()
}

} // verus!
