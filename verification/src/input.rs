//! The keyboard input pipeline: a bounded scancode queue fed by the keyboard
//! interrupt, a slot for the waker of the task that reads it, and counters for
//! scancodes that were lost.
use vstd::prelude::*;
use core::task::Waker;
use crossbeam_queue::ArrayQueue;
use futures_util::task::AtomicWaker;
use crate::counter::count_up;
use crate::queue::{
    array_queue_capacity, array_queue_items, queue_new, queue_pop, queue_push, queue_wf,
};
use crate::wake::{
    atomic_waker_holds, atomic_waker_new, atomic_waker_register, atomic_waker_take,
};

verus! {

/// How many scancodes the input queue holds.
pub const KEYBOARD_SCANCODE_QUEUE_CAPACITY: usize = 100;

/// What happens to a scancode that arrives while the queue is full.
#[derive(Clone, Copy, Debug, PartialEq, Eq, Structural)]
pub enum OverflowPolicy {
    /// The new scancode is dropped and counted; the queue keeps its oldest entries.
    DropNew,
    /// The oldest queued scancode makes room for the new one.
    DropOld,
}

/// The state of the input pipeline as mathematical values.
pub struct InputView {
    /// The queued scancodes, oldest first; `None` until the queue is set up.
    pub queue: Option<Seq<u8>>,
    /// Scancodes dropped because the queue was full.
    pub dropped: u64,
    /// Scancodes that arrived before the queue was set up.
    pub uninitialized: u64,
    /// What a full queue does with a new scancode.
    pub policy: OverflowPolicy,
    /// Whether a reader's waker is registered.
    pub waker_registered: bool,
}

/// The pipeline after the keyboard delivers `scancode`.
pub open spec fn push_spec(v: InputView, scancode: u8) -> InputView {
    match v.queue {
        None => InputView { uninitialized: count_up(v.uninitialized), ..v },
        Some(items) => {
            if items.len() < KEYBOARD_SCANCODE_QUEUE_CAPACITY {
                InputView { queue: Some(items.push(scancode)), waker_registered: false, ..v }
            } else {
                match v.policy {
                    OverflowPolicy::DropNew => InputView { dropped: count_up(v.dropped), ..v },
                    OverflowPolicy::DropOld => InputView {
                        queue: Some(items.drop_first().push(scancode)),
                        waker_registered: false,
                        ..v
                    },
                }
            }
        },
    }
}

/// The oldest queued scancode, if any.
pub open spec fn front_spec(v: InputView) -> Option<u8> {
    match v.queue {
        Some(items) => if items.len() > 0 {
            Some(items[0])
        } else {
            None
        },
        None => None,
    }
}

/// The pipeline after the oldest scancode, if any, is taken out.
pub open spec fn pop_spec(v: InputView) -> InputView {
    match v.queue {
        Some(items) => if items.len() > 0 {
            InputView { queue: Some(items.drop_first()), ..v }
        } else {
            v
        },
        None => v,
    }
}

/// The keyboard input pipeline.
pub struct InputState {
    queue: Option<ArrayQueue<u64>>,
    waker: AtomicWaker,
    dropped: u64,
    uninitialized: u64,
    policy: OverflowPolicy,
}

/// The scancodes a queue holds (they are stored widened to `u64`).
pub open spec fn scancodes_of(items: Seq<u64>) -> Seq<u8> {
    items.map_values(|x: u64| x as u8)
}

impl View for InputState {
    type V = InputView;

    closed spec fn view(&self) -> InputView {
        InputView {
            queue: match self.queue {
                Some(q) => Some(scancodes_of(array_queue_items(q))),
                None => None,
            },
            dropped: self.dropped,
            uninitialized: self.uninitialized,
            policy: self.policy,
            waker_registered: atomic_waker_holds(self.waker),
        }
    }
}

impl InputState {
    /// The internal invariant: the queue has the fixed capacity and every stored
    /// item is a byte.
    pub closed spec fn wf(&self) -> bool {
        match self.queue {
            Some(q) => {
                &&& queue_wf(q)
                &&& array_queue_capacity(q) == KEYBOARD_SCANCODE_QUEUE_CAPACITY
                &&& all_bytes(array_queue_items(q))
            },
            None => true,
        }
    }

    /// The raw items of the queue (empty while it is not set up).
    closed spec fn stored_items(&self) -> Seq<u64> {
        match self.queue {
            Some(q) => array_queue_items(q),
            None => Seq::<u64>::empty(),
        }
    }

    /// A pipeline whose queue is not set up yet, with zeroed counters.
    pub fn new(policy: OverflowPolicy) -> (s: Self)
        ensures
            s.wf(),
            s@ == (InputView {
                queue: None,
                dropped: 0,
                uninitialized: 0,
                policy,
                waker_registered: false,
            }),
    {
        InputState {
            queue: None,
            waker: atomic_waker_new(),
            dropped: 0,
            uninitialized: 0,
            policy,
        }
    }
}

/// Whether the scancode queue has been set up.
pub fn keyboard_input_initialized(input: &InputState) -> (b: bool)
    ensures
        b == (input@.queue is Some),
{
    input.queue.is_some()
}

/// Sets up the scancode queue. The queue can be set up only once.
pub fn init_keyboard_input(input: &mut InputState)
    requires
        old(input).wf(),
        old(input)@.queue is None,
    ensures
        final(input).wf(),
        final(input)@ == (InputView { queue: Some(Seq::<u8>::empty()), ..old(input)@ }),
{
    let q = queue_new(KEYBOARD_SCANCODE_QUEUE_CAPACITY);
    input.queue = Some(q);
    assert(scancodes_of(Seq::<u64>::empty()) =~= Seq::<u8>::empty());
}

/// Whether delivering a scancode hands the registered reader's waker out to be
/// woken: a reader is registered and the scancode gets queued.
pub open spec fn push_wakes_reader(v: InputView) -> bool {
    &&& v.waker_registered
    &&& v.queue matches Some(items)
    &&& (items.len() < KEYBOARD_SCANCODE_QUEUE_CAPACITY || v.policy == OverflowPolicy::DropOld)
}

/// Feeds one scancode from the keyboard into the pipeline. A lost scancode is
/// counted. When the scancode is queued, the registered reader's waker is taken out
/// of its slot and returned, for the caller to wake once it has let go of the
/// pipeline.
pub fn push_keyboard_scancode(input: &mut InputState, scancode: u8) -> (to_wake: Option<Waker>)
    requires
        old(input).wf(),
    ensures
        final(input).wf(),
        final(input)@ == push_spec(old(input)@, scancode),
        to_wake is Some <==> push_wakes_reader(old(input)@),
{
    let policy = input.policy;
    let ghost old_items = input.stored_items();
    let to_wake = match &mut input.queue {
        Some(queue) => {
            match policy {
                OverflowPolicy::DropNew => {
                    handle_scancode_with_drop_new(queue, &mut input.waker, &mut input.dropped, scancode)
                },
                OverflowPolicy::DropOld => {
                    handle_scancode_with_drop_old(queue, &mut input.waker, &mut input.dropped, scancode)
                },
            }
        },
        None => {
            input.uninitialized = input.uninitialized.wrapping_add(1);
            None
        },
    };
    proof {
        if input.queue is Some {
            let items = input.stored_items();
            if old_items.len() < KEYBOARD_SCANCODE_QUEUE_CAPACITY {
                assert(scancodes_of(items) =~= scancodes_of(old_items).push(scancode));
            } else if policy == OverflowPolicy::DropOld {
                assert(scancodes_of(items) =~= scancodes_of(old_items).drop_first().push(scancode));
            } else {
                assert(scancodes_of(items) =~= scancodes_of(old_items));
            }
        }
    }
    to_wake
}

/// Every stored item is a byte value.
pub open spec fn all_bytes(items: Seq<u64>) -> bool {
    forall|i: int| 0 <= i < items.len() ==> #[trigger] items[i] < 256
}

/// Full queue: the new scancode is dropped and counted.
fn handle_scancode_with_drop_new(
    queue: &mut ArrayQueue<u64>,
    waker: &mut AtomicWaker,
    dropped: &mut u64,
    scancode: u8,
) -> (to_wake: Option<Waker>)
    requires
        queue_wf(*old(queue)),
        all_bytes(array_queue_items(*old(queue))),
    ensures
        queue_wf(*final(queue)),
        all_bytes(array_queue_items(*final(queue))),
        array_queue_capacity(*final(queue)) == array_queue_capacity(*old(queue)),
        to_wake is Some <==> (atomic_waker_holds(*old(waker)) && array_queue_items(
            *old(queue),
        ).len() < array_queue_capacity(*old(queue))),
        array_queue_items(*old(queue)).len() < array_queue_capacity(*old(queue)) ==> {
            &&& array_queue_items(*final(queue)) == array_queue_items(*old(queue)).push(
                scancode as u64,
            )
            &&& !atomic_waker_holds(*final(waker))
            &&& *final(dropped) == *old(dropped)
        },
        array_queue_items(*old(queue)).len() >= array_queue_capacity(*old(queue)) ==> {
            &&& array_queue_items(*final(queue)) == array_queue_items(*old(queue))
            &&& *final(waker) == *old(waker)
            &&& *final(dropped) == count_up(*old(dropped))
        },
{
    if queue_push(queue, scancode as u64).is_ok() {
        atomic_waker_take(waker)
    } else {
        *dropped = dropped.wrapping_add(1);
        None
    }
}

/// Full queue: the oldest scancode makes room for the new one.
fn handle_scancode_with_drop_old(
    queue: &mut ArrayQueue<u64>,
    waker: &mut AtomicWaker,
    dropped: &mut u64,
    scancode: u8,
) -> (to_wake: Option<Waker>)
    requires
        queue_wf(*old(queue)),
        all_bytes(array_queue_items(*old(queue))),
    ensures
        queue_wf(*final(queue)),
        all_bytes(array_queue_items(*final(queue))),
        array_queue_capacity(*final(queue)) == array_queue_capacity(*old(queue)),
        *final(dropped) == *old(dropped),
        to_wake is Some <==> atomic_waker_holds(*old(waker)),
        !atomic_waker_holds(*final(waker)),
        array_queue_items(*old(queue)).len() < array_queue_capacity(*old(queue)) ==>
            array_queue_items(*final(queue)) == array_queue_items(*old(queue)).push(
                scancode as u64,
            ),
        array_queue_items(*old(queue)).len() >= array_queue_capacity(*old(queue)) ==>
            array_queue_items(*final(queue)) == array_queue_items(*old(queue)).drop_first().push(
                scancode as u64,
            ),
{
    if queue_push(queue, scancode as u64).is_ok() {
        return atomic_waker_take(waker);
    }
    let _ = queue_pop(queue);
    if queue_push(queue, scancode as u64).is_ok() {
        atomic_waker_take(waker)
    } else {
        *dropped = dropped.wrapping_add(1);
        None
    }
}

/// Takes the oldest queued scancode out, if the queue is set up and not empty.
pub fn pop_keyboard_scancode(input: &mut InputState) -> (res: Option<u8>)
    requires
        old(input).wf(),
    ensures
        final(input).wf(),
        res == front_spec(old(input)@),
        final(input)@ == pop_spec(old(input)@),
{
    let ghost old_items = input.stored_items();
    let res = match &mut input.queue {
        Some(queue) => match queue_pop(queue) {
            Some(x) => Some(x as u8),
            None => None,
        },
        None => None,
    };
    proof {
        if input.queue is Some {
            if old_items.len() > 0 {
                assert(scancodes_of(input.stored_items()) =~= scancodes_of(old_items).drop_first());
            }
        }
    }
    res
}

/// Registers the waker of the task that waits for input.
pub fn register_keyboard_waker(input: &mut InputState, waker: &Waker)
    requires
        old(input).wf(),
    ensures
        final(input).wf(),
        final(input)@ == (InputView { waker_registered: true, ..old(input)@ }),
{
    atomic_waker_register(&mut input.waker, waker);
}

/// Takes the registered waker, if any, out of its slot without waking it; it is
/// handed back to the caller.
pub fn clear_keyboard_waker(input: &mut InputState) -> (removed: Option<Waker>)
    requires
        old(input).wf(),
    ensures
        final(input).wf(),
        final(input)@ == (InputView { waker_registered: false, ..old(input)@ }),
        removed is Some == old(input)@.waker_registered,
{
    atomic_waker_take(&mut input.waker)
}

/// How many scancodes were dropped because the queue was full.
pub fn dropped_scancode_count(input: &InputState) -> (n: u64)
    ensures
        n == input@.dropped,
{
    input.dropped
}

/// How many scancodes arrived before the queue was set up.
pub fn uninitialized_scancode_count(input: &InputState) -> (n: u64)
    ensures
        n == input@.uninitialized,
{
    input.uninitialized
}

/// Sets both loss counters back to zero.
pub fn reset_counters_for_test(input: &mut InputState)
    requires
        old(input).wf(),
    ensures
        final(input).wf(),
        final(input)@ == (InputView { dropped: 0, uninitialized: 0, ..old(input)@ }),
{
    input.dropped = 0;
    input.uninitialized = 0;
}

} // verus!

verus! {

/// The pipeline after the keyboard delivers `scancodes`, first to last.
pub open spec fn push_all_spec(v: InputView, scancodes: Seq<u8>) -> InputView
    decreases scancodes.len(),
{
    if scancodes.len() == 0 {
        v
    } else {
        push_all_spec(push_spec(v, scancodes[0]), scancodes.drop_first())
    }
}

/// `count_up` applied `n` times.
pub open spec fn count_up_n(x: u64, n: nat) -> u64
    decreases n,
{
    if n == 0 {
        x
    } else {
        count_up_n(count_up(x), (n - 1) as nat)
    }
}

/// The queue never holds more scancodes than its capacity.
pub proof fn lemma_queue_stays_within_capacity(v: InputView, scancode: u8)
    requires
        v.queue matches Some(items) && items.len() <= KEYBOARD_SCANCODE_QUEUE_CAPACITY,
    ensures
        push_spec(v, scancode).queue matches Some(items) && items.len()
            <= KEYBOARD_SCANCODE_QUEUE_CAPACITY,
{
}

/// Under the drop-new policy, a burst of scancodes into an empty queue keeps the
/// oldest ones that fit and counts every other one as dropped.
pub proof fn lemma_drop_new_keeps_oldest(v: InputView, scancodes: Seq<u8>)
    requires
        v.policy == OverflowPolicy::DropNew,
        v.queue == Some(Seq::<u8>::empty()),
    ensures
        push_all_spec(v, scancodes).queue == Some(
            if scancodes.len() <= KEYBOARD_SCANCODE_QUEUE_CAPACITY {
                scancodes
            } else {
                scancodes.take(KEYBOARD_SCANCODE_QUEUE_CAPACITY as int)
            },
        ),
        push_all_spec(v, scancodes).dropped == count_up_n(
            v.dropped,
            if scancodes.len() <= KEYBOARD_SCANCODE_QUEUE_CAPACITY {
                0
            } else {
                (scancodes.len() - KEYBOARD_SCANCODE_QUEUE_CAPACITY) as nat
            },
        ),
        push_all_spec(v, scancodes).uninitialized == v.uninitialized,
{
    lemma_drop_new_general(v, Seq::<u8>::empty(), scancodes);
    assert(Seq::<u8>::empty() + scancodes =~= scancodes);
}

/// Induction behind `lemma_drop_new_keeps_oldest`, from any queue content `held`.
proof fn lemma_drop_new_general(v: InputView, held: Seq<u8>, scancodes: Seq<u8>)
    requires
        v.policy == OverflowPolicy::DropNew,
        v.queue == Some(held),
        held.len() <= KEYBOARD_SCANCODE_QUEUE_CAPACITY,
    ensures
        ({
            let all = held + scancodes;
            let kept = if all.len() <= KEYBOARD_SCANCODE_QUEUE_CAPACITY {
                all
            } else {
                all.take(KEYBOARD_SCANCODE_QUEUE_CAPACITY as int)
            };
            let lost: nat = if all.len() <= KEYBOARD_SCANCODE_QUEUE_CAPACITY {
                0
            } else {
                (all.len() - KEYBOARD_SCANCODE_QUEUE_CAPACITY) as nat
            };
            &&& push_all_spec(v, scancodes).queue == Some(kept)
            &&& push_all_spec(v, scancodes).dropped == count_up_n(v.dropped, lost)
            &&& push_all_spec(v, scancodes).uninitialized == v.uninitialized
            &&& push_all_spec(v, scancodes).policy == v.policy
        }),
    decreases scancodes.len(),
{
    let cap = KEYBOARD_SCANCODE_QUEUE_CAPACITY as int;
    if scancodes.len() == 0 {
        assert(held + scancodes =~= held);
    } else {
        let s = scancodes[0];
        let rest = scancodes.drop_first();
        let v1 = push_spec(v, s);
        if held.len() < cap {
            let held1 = held.push(s);
            lemma_drop_new_general(v1, held1, rest);
            assert(held1 + rest =~= held + scancodes);
        } else {
            lemma_drop_new_general(v1, held, rest);
            let all = held + scancodes;
            assert((held + rest).take(cap) =~= all.take(cap));
            let lost1: nat = if (held + rest).len() <= cap {
                0
            } else {
                ((held + rest).len() - cap) as nat
            };
            assert(count_up_n(v.dropped, lost1 + 1) == count_up_n(count_up(v.dropped), lost1));
            if (held + rest).len() <= cap {
                assert(held + rest =~= held);
                assert(held =~= all.take(cap));
            }
        }
    }
}

/// Under the drop-old policy, a burst of scancodes into an empty queue keeps the
/// most recent ones that fit, and nothing is counted as dropped.
pub proof fn lemma_drop_old_keeps_latest(v: InputView, scancodes: Seq<u8>)
    requires
        v.policy == OverflowPolicy::DropOld,
        v.queue == Some(Seq::<u8>::empty()),
    ensures
        push_all_spec(v, scancodes).queue == Some(
            if scancodes.len() <= KEYBOARD_SCANCODE_QUEUE_CAPACITY {
                scancodes
            } else {
                scancodes.skip(scancodes.len() - KEYBOARD_SCANCODE_QUEUE_CAPACITY)
            },
        ),
        push_all_spec(v, scancodes).dropped == v.dropped,
        push_all_spec(v, scancodes).uninitialized == v.uninitialized,
{
    lemma_drop_old_general(v, Seq::<u8>::empty(), scancodes);
    assert(Seq::<u8>::empty() + scancodes =~= scancodes);
}

/// Induction behind `lemma_drop_old_keeps_latest`, from any queue content `held`.
proof fn lemma_drop_old_general(v: InputView, held: Seq<u8>, scancodes: Seq<u8>)
    requires
        v.policy == OverflowPolicy::DropOld,
        v.queue == Some(held),
        held.len() <= KEYBOARD_SCANCODE_QUEUE_CAPACITY,
    ensures
        ({
            let all = held + scancodes;
            let kept = if all.len() <= KEYBOARD_SCANCODE_QUEUE_CAPACITY {
                all
            } else {
                all.skip(all.len() - KEYBOARD_SCANCODE_QUEUE_CAPACITY)
            };
            &&& push_all_spec(v, scancodes).queue == Some(kept)
            &&& push_all_spec(v, scancodes).dropped == v.dropped
            &&& push_all_spec(v, scancodes).uninitialized == v.uninitialized
            &&& push_all_spec(v, scancodes).policy == v.policy
        }),
    decreases scancodes.len(),
{
    let cap = KEYBOARD_SCANCODE_QUEUE_CAPACITY as int;
    if scancodes.len() == 0 {
        assert(held + scancodes =~= held);
    } else {
        let s = scancodes[0];
        let rest = scancodes.drop_first();
        let v1 = push_spec(v, s);
        let all = held + scancodes;
        if held.len() < cap {
            let held1 = held.push(s);
            lemma_drop_old_general(v1, held1, rest);
            assert(held1 + rest =~= all);
        } else {
            let held1 = held.drop_first().push(s);
            lemma_drop_old_general(v1, held1, rest);
            let all1 = held1 + rest;
            assert(all1.len() == all.len() - 1);
            assert(all1.skip(all1.len() - cap) =~= all.skip(all.len() - cap));
        }
    }
}

/// Scancodes come out in the order they went in: a scancode queued into an empty
/// queue is the next one taken out, and queuing one behind others does not change
/// which one is taken out next.
pub proof fn lemma_first_in_first_out(v: InputView, scancode: u8)
    requires
        v.queue matches Some(items) && items.len() < KEYBOARD_SCANCODE_QUEUE_CAPACITY,
    ensures
        v.queue matches Some(items) && items.len() == 0 ==> front_spec(push_spec(v, scancode))
            == Some(scancode),
        v.queue matches Some(items) && items.len() > 0 ==> front_spec(push_spec(v, scancode))
            == front_spec(v),
        pop_spec(push_spec(v, scancode)).queue == match v.queue {
            Some(items) => if items.len() == 0 {
                Some(items)
            } else {
                Some(items.drop_first().push(scancode))
            },
            None => None,
        },
{
    if let Some(items) = v.queue {
        if items.len() == 0 {
            assert(items.push(scancode).drop_first() =~= items);
        } else {
            assert(items.push(scancode).drop_first() =~= items.drop_first().push(scancode));
        }
    }
}

} // verus!

verus! {

/// A call on the input pipeline that can change its queue or counters.
pub enum InputEvent {
    Init,
    Push(u8),
    Pop,
    Reset,
}

/// The pipeline after one call.
pub open spec fn apply_input(v: InputView, event: InputEvent) -> InputView {
    match event {
        InputEvent::Init => if v.queue is None {
            InputView { queue: Some(Seq::<u8>::empty()), ..v }
        } else {
            v
        },
        InputEvent::Push(s) => push_spec(v, s),
        InputEvent::Pop => pop_spec(v),
        InputEvent::Reset => InputView { dropped: 0, uninitialized: 0, ..v },
    }
}

/// The pipeline after a history of calls, first to last.
pub open spec fn run_input(v: InputView, events: Seq<InputEvent>) -> InputView
    decreases events.len(),
{
    if events.len() == 0 {
        v
    } else {
        apply_input(run_input(v, events.drop_last()), events.last())
    }
}

/// Whether pushing into a pipeline in state `v` drops the scancode.
pub open spec fn push_drops(v: InputView) -> bool {
    v.queue matches Some(items) && items.len() >= KEYBOARD_SCANCODE_QUEUE_CAPACITY && v.policy
        == OverflowPolicy::DropNew
}

/// How many pushes of the history, after its last reset, dropped their scancode.
pub open spec fn drops_since_reset(v: InputView, events: Seq<InputEvent>) -> nat
    decreases events.len(),
{
    if events.len() == 0 {
        0
    } else {
        let before = events.drop_last();
        match events.last() {
            InputEvent::Reset => 0,
            InputEvent::Push(_) => drops_since_reset(v, before) + if push_drops(
                run_input(v, before),
            ) {
                1nat
            } else {
                0nat
            },
            _ => drops_since_reset(v, before),
        }
    }
}

/// How many pushes of the history, after its last reset, came before the queue was
/// set up.
pub open spec fn early_pushes_since_reset(v: InputView, events: Seq<InputEvent>) -> nat
    decreases events.len(),
{
    if events.len() == 0 {
        0
    } else {
        let before = events.drop_last();
        match events.last() {
            InputEvent::Reset => 0,
            InputEvent::Push(_) => early_pushes_since_reset(v, before) + if run_input(
                v,
                before,
            ).queue is None {
                1nat
            } else {
                0nat
            },
            _ => early_pushes_since_reset(v, before),
        }
    }
}

/// Whether the history holds a reset.
pub open spec fn has_reset(events: Seq<InputEvent>) -> bool {
    exists|i: int| 0 <= i < events.len() && events[i] is Reset
}

/// One more step of a wrapping count.
proof fn lemma_count_up_n_step(x: u64, n: nat)
    ensures
        count_up_n(x, n + 1) == count_up(count_up_n(x, n)),
    decreases n,
{
    assert(count_up_n(x, n + 1) == count_up_n(count_up(x), n));
    if n > 0 {
        lemma_count_up_n_step(count_up(x), (n - 1) as nat);
        assert(count_up_n(x, n) == count_up_n(count_up(x), (n - 1) as nat));
    }
}

/// The loss counters count over the history: the dropped count is the number of
/// scancodes dropped since the last reset (added to the starting count when there
/// was none), and the early count is the number of scancodes that arrived before the
/// queue was set up, counted the same way (both wrap around like atomic counters).
pub proof fn lemma_loss_counters_count_history(v: InputView, events: Seq<InputEvent>)
    ensures
        run_input(v, events).dropped == count_up_n(
            if has_reset(events) {
                0
            } else {
                v.dropped
            },
            drops_since_reset(v, events),
        ),
        run_input(v, events).uninitialized == count_up_n(
            if has_reset(events) {
                0
            } else {
                v.uninitialized
            },
            early_pushes_since_reset(v, events),
        ),
    decreases events.len(),
{
    if events.len() > 0 {
        let before = events.drop_last();
        lemma_loss_counters_count_history(v, before);
        let base_d = if has_reset(before) {
            0
        } else {
            v.dropped
        };
        let base_u = if has_reset(before) {
            0
        } else {
            v.uninitialized
        };
        lemma_count_up_n_step(base_d, drops_since_reset(v, before));
        lemma_count_up_n_step(base_u, early_pushes_since_reset(v, before));
        if events.last() is Reset {
            assert(events[events.len() - 1] is Reset);
        } else {
            assert(has_reset(events) == has_reset(before)) by {
                if has_reset(events) {
                    let i = choose|i: int| 0 <= i < events.len() && events[i] is Reset;
                    assert(before[i] == events[i]);
                }
                if has_reset(before) {
                    let i = choose|i: int| 0 <= i < before.len() && before[i] is Reset;
                    assert(before[i] == events[i]);
                }
            }
        }
    }
}

} // verus!

verus! {

/// A registered reader is handed out once: the next scancode that gets queued hands
/// its waker out, and leaves nothing for the scancode after it.
pub proof fn lemma_registered_reader_handed_out_once(v: InputView, first: u8, second: u8)
    requires
        v.waker_registered,
        v.queue matches Some(items) && items.len() < KEYBOARD_SCANCODE_QUEUE_CAPACITY,
    ensures
        push_wakes_reader(v),
        !push_spec(v, first).waker_registered,
        !push_wakes_reader(push_spec(v, first)),
        push_spec(push_spec(v, first), second).waker_registered == false,
{
}

} // verus!
