//! The tick timer: a tick counter driven by the timer interrupt, and futures that
//! sleep until a given tick.
use vstd::prelude::*;
use core::task::Waker;
use vstd::multiset::Multiset;
use crate::wake::{waker_clone, waker_will_wake};

verus! {

broadcast use {vstd::seq_lib::group_to_multiset_ensures, vstd::multiset::group_multiset_axioms};

/// A sleeping task: the tick at which it is due and the waker that wakes it.
pub struct SleeperEntry {
    pub wake_tick: u64,
    pub waker: Waker,
}

/// The timer as mathematical values.
pub struct TimerView {
    /// Ticks counted since start.
    pub current_tick: u64,
    /// The sleeping tasks, in no particular order.
    pub sleepers: Seq<SleeperEntry>,
}

/// The tick counter and the tasks sleeping until a later tick.
pub struct TimerState {
    current: u64,
    sleepers: Vec<SleeperEntry>,
}

impl View for TimerState {
    type V = TimerView;

    closed spec fn view(&self) -> TimerView {
        TimerView { current_tick: self.current, sleepers: self.sleepers@ }
    }
}

/// The sleepers not yet due at tick `t`, as a multiset.
pub open spec fn still_sleeping(sleepers: Seq<SleeperEntry>, t: u64) -> Multiset<SleeperEntry> {
    sleepers.to_multiset().filter(|e: SleeperEntry| e.wake_tick > t)
}

impl TimerState {
    /// Tick 0 and nobody sleeping.
    pub fn new() -> (t: Self)
        ensures
            t@.current_tick == 0,
            t@.sleepers == Seq::<SleeperEntry>::empty(),
    {
        TimerState { current: 0, sleepers: Vec::new() }
    }
}

/// The number of ticks counted so far.
pub fn current_tick(timer: &TimerState) -> (t: u64)
    ensures
        t == timer@.current_tick,
{
    timer.current
}

/// Taking out the entry at `i` by moving the last entry into its place keeps every
/// other entry.
proof fn lemma_swap_remove_multiset<A>(s: Seq<A>, i: int)
    requires
        0 <= i < s.len(),
    ensures
        s.to_multiset() =~= s.update(i, s.last()).drop_last().to_multiset().insert(s[i]),
{
    broadcast use {
        vstd::seq_lib::to_multiset_update,
        vstd::seq_lib::to_multiset_remove,
        vstd::multiset::group_multiset_properties,
    };

    let u = s.update(i, s.last());
    assert(u.drop_last() =~= u.remove(u.len() - 1));
    assert(u[u.len() - 1] == s.last());
}

/// The sleepers due at tick `t`, as a multiset.
pub open spec fn due_at(sleepers: Seq<SleeperEntry>, t: u64) -> Multiset<SleeperEntry> {
    sleepers.to_multiset().filter(|e: SleeperEntry| e.wake_tick <= t)
}

/// Counts one tick and takes out every sleeper whose tick has come; the others
/// stay. The sleepers taken out are returned, for the caller to wake their wakers
/// once it has let go of the timer.
pub fn tick(timer: &mut TimerState) -> (due: Vec<SleeperEntry>)
    requires
        old(timer)@.current_tick < u64::MAX,
    ensures
        final(timer)@.current_tick == old(timer)@.current_tick + 1,
        final(timer)@.sleepers.to_multiset() =~= still_sleeping(
            old(timer)@.sleepers,
            final(timer)@.current_tick,
        ),
        due@.to_multiset() =~= due_at(old(timer)@.sleepers, final(timer)@.current_tick),
{
    let tick_value = timer.current + 1;
    timer.current = tick_value;
    let mut due_entries: Vec<SleeperEntry> = Vec::new();
    let ghost old_sleepers = timer.sleepers@;
    let ghost mut due: Seq<SleeperEntry> = Seq::empty();
    let mut index: usize = 0;
    while index < timer.sleepers.len()
        invariant
            timer.current == tick_value,
            index <= timer.sleepers.len(),
            forall|j: int| 0 <= j < index ==> #[trigger] timer.sleepers@[j].wake_tick > tick_value,
            forall|j: int| 0 <= j < due.len() ==> #[trigger] due[j].wake_tick <= tick_value,
            old_sleepers.to_multiset() =~= timer.sleepers@.to_multiset().add(due.to_multiset()),
            due_entries@ == due,
        decreases timer.sleepers.len() - index,
    {
        if timer.sleepers[index].wake_tick <= tick_value {
            let ghost before = timer.sleepers@;
            proof {
                lemma_swap_remove_multiset(before, index as int);
            }
            let entry = timer.sleepers.swap_remove(index);
            proof {
                broadcast use {vstd::seq_lib::to_multiset_build, vstd::multiset::group_multiset_properties};

                assert(due.push(entry).to_multiset() =~= due.to_multiset().insert(entry));
                due = due.push(entry);
                assert(old_sleepers.to_multiset() =~= timer.sleepers@.to_multiset().add(
                    due.to_multiset(),
                ));
            }
            due_entries.push(entry);
        } else {
            index = index + 1;
        }
    }
    proof {
        let fin = timer.sleepers@;
        assert forall|e: SleeperEntry|
            fin.to_multiset().count(e) == still_sleeping(old_sleepers, tick_value).count(
                e,
            ) by {
            if e.wake_tick > tick_value {
                if due.to_multiset().count(e) > 0 {
                    let k = choose|k: int| 0 <= k < due.len() && due[k] == e;
                    assert(due[k].wake_tick <= tick_value);
                }
            } else {
                if fin.to_multiset().count(e) > 0 {
                    let k = choose|k: int| 0 <= k < fin.len() && fin[k] == e;
                    assert(fin[k].wake_tick > tick_value);
                }
            }
        }
        assert forall|e: SleeperEntry|
            due.to_multiset().count(e) == due_at(old_sleepers, tick_value).count(e) by {
            if e.wake_tick <= tick_value {
                if fin.to_multiset().count(e) > 0 {
                    let k = choose|k: int| 0 <= k < fin.len() && fin[k] == e;
                    assert(fin[k].wake_tick > tick_value);
                }
            } else {
                if due.to_multiset().count(e) > 0 {
                    let k = choose|k: int| 0 <= k < due.len() && due[k] == e;
                    assert(due[k].wake_tick <= tick_value);
                }
            }
        }
    }
    due_entries
}

/// A future that completes once the timer reaches `wake_tick`.
pub struct Sleep {
    wake_tick: u64,
}

impl View for Sleep {
    type V = u64;

    closed spec fn view(&self) -> u64 {
        self.wake_tick
    }
}

/// The tick at which a sleep of `ticks` ticks started at tick `current` is due: at
/// least one tick later, and never past the last tick.
pub open spec fn sleep_deadline(current: u64, ticks: u64) -> u64 {
    let delta: int = if ticks == 0 {
        1
    } else {
        ticks as int
    };
    if current + delta > u64::MAX {
        u64::MAX
    } else {
        (current + delta) as u64
    }
}

/// A future that is due `ticks` ticks from now (a zero sleep still waits one tick).
pub fn sleep_ticks(timer: &TimerState, ticks: u64) -> (s: Sleep)
    ensures
        s@ == sleep_deadline(timer@.current_tick, ticks),
{
    let current = current_tick(timer);
    let delta = if ticks == 0 {
        1
    } else {
        ticks
    };
    Sleep { wake_tick: current.saturating_add(delta) }
}

/// `i` is the first position where `same_task` holds.
pub open spec fn is_first_match(same_task: Seq<bool>, i: int) -> bool {
    &&& 0 <= i < same_task.len()
    &&& same_task[i]
    &&& forall|j: int| 0 <= j < i ==> !#[trigger] same_task[j]
}

/// The sleepers after a task registers `entry`, where `same_task[i]` says whether
/// the waker of sleeper `i` wakes the registering task: the first such sleeper is
/// replaced by `entry`, and without one `entry` is added at the end.
pub open spec fn register_spec(
    sleepers: Seq<SleeperEntry>,
    same_task: Seq<bool>,
    entry: SleeperEntry,
) -> Seq<SleeperEntry> {
    if exists|i: int| 0 <= i < same_task.len() && same_task[i] {
        sleepers.update(choose|i: int| is_first_match(same_task, i), entry)
    } else {
        sleepers.push(entry)
    }
}

impl Sleep {
    /// Polls the sleep: `true` once the timer has reached the deadline. Otherwise the
    /// task's waker is registered with the timer, replacing the entry of the same
    /// task when there is one (`Waker::will_wake` decides which entries belong to
    /// the same task).
    pub fn poll(&self, timer: &mut TimerState, waker: &Waker) -> (ready: bool)
        ensures
            ready == (old(timer)@.current_tick >= self@),
            ready ==> final(timer)@ == old(timer)@,
            !ready ==> final(timer)@.current_tick == old(timer)@.current_tick,
            !ready ==> exists|same_task: Seq<bool>, w: Waker|
                same_task.len() == old(timer)@.sleepers.len() && final(timer)@.sleepers
                    == register_spec(
                    old(timer)@.sleepers,
                    same_task,
                    SleeperEntry { wake_tick: self@, waker: w },
                ),
    {
        if timer.current >= self.wake_tick {
            return true;
        }
        let mut same_task: Vec<bool> = Vec::new();
        let mut i: usize = 0;
        while i < timer.sleepers.len()
            invariant
                i <= timer.sleepers.len(),
                same_task.len() == i,
                timer@ == old(timer)@,
            decreases timer.sleepers.len() - i,
        {
            same_task.push(waker_will_wake(&timer.sleepers[i].waker, waker));
            i = i + 1;
        }
        let w = waker_clone(waker);
        let ghost gw = w;
        let ready = self.poll_with(timer, &same_task, w);
        assert(final(timer)@.sleepers == register_spec(
            old(timer)@.sleepers,
            same_task@,
            SleeperEntry { wake_tick: self@, waker: gw },
        ));
        ready
    }

    /// Polls the sleep given, for each registered sleeper, whether its waker wakes
    /// the polling task (`same_task`), and the waker to register.
    pub fn poll_with(&self, timer: &mut TimerState, same_task: &Vec<bool>, waker: Waker) -> (ready:
        bool)
        requires
            same_task.len() == old(timer)@.sleepers.len(),
        ensures
            ready == (old(timer)@.current_tick >= self@),
            ready ==> final(timer)@ == old(timer)@,
            !ready ==> final(timer)@ == (TimerView {
                sleepers: register_spec(
                    old(timer)@.sleepers,
                    same_task@,
                    SleeperEntry { wake_tick: self@, waker },
                ),
                ..old(timer)@
            }),
    {
        if timer.current >= self.wake_tick {
            return true;
        }
        let ghost entry = SleeperEntry { wake_tick: self@, waker };
        let mut i: usize = 0;
        while i < same_task.len()
            invariant
                i <= same_task.len(),
                same_task.len() == old(timer)@.sleepers.len(),
                timer@ == old(timer)@,
                old(timer)@.current_tick < self@,
                entry == (SleeperEntry { wake_tick: self@, waker }),
                forall|j: int| 0 <= j < i ==> !#[trigger] same_task@[j],
            decreases same_task.len() - i,
        {
            if same_task[i] {
                proof {
                    assert(is_first_match(same_task@, i as int));
                    let k = choose|k: int| is_first_match(same_task@, k);
                    assert(k == i) by {
                        if k < i {
                            assert(!same_task@[k]);
                        } else if i < k {
                            assert(!same_task@[i as int]);
                        }
                    }
                }
                timer.sleepers.set(i, SleeperEntry { wake_tick: self.wake_tick, waker });
                assert(timer.sleepers@ =~= old(timer)@.sleepers.update(i as int, entry));
                return false;
            }
            i = i + 1;
        }
        timer.sleepers.push(SleeperEntry { wake_tick: self.wake_tick, waker });
        false
    }
}

/// The tick count counts ticks: along a series of timer states that starts at a new
/// timer and in which each state is one `tick` after the one before, the `n`-th
/// state has counted `n` ticks.
pub proof fn lemma_tick_count_counts_ticks(states: Seq<TimerView>)
    requires
        states.len() > 0,
        states[0].current_tick == 0,
        forall|i: int|
            0 <= i < states.len() - 1 ==> #[trigger] states[i + 1].current_tick
                == states[i].current_tick + 1,
    ensures
        forall|n: int| 0 <= n < states.len() ==> #[trigger] states[n].current_tick == n,
    decreases states.len(),
{
    if states.len() > 1 {
        let prefix = states.drop_last();
        assert forall|i: int| 0 <= i < prefix.len() - 1 implies #[trigger] prefix[i + 1].current_tick
            == prefix[i].current_tick + 1 by {
            assert(states[i + 1].current_tick == states[i].current_tick + 1);
        }
        lemma_tick_count_counts_ticks(prefix);
        assert forall|n: int| 0 <= n < states.len() implies #[trigger] states[n].current_tick
            == n by {
            if n < states.len() - 1 {
                assert(prefix[n] == states[n]);
            } else {
                assert(prefix[n - 1] == states[n - 1]);
                assert(states[(n - 1) + 1].current_tick == states[n - 1].current_tick + 1);
            }
        }
    }
}

/// A sleep of `ticks > 0` ticks taken at tick `start` is not ready during the
/// `ticks - 1` ticks after `start` and is ready from tick `start + ticks` on.
pub proof fn lemma_sleep_ready_after_ticks(start: u64, ticks: u64, now: u64)
    requires
        start + ticks <= u64::MAX,
        ticks > 0,
        start <= now,
    ensures
        (now >= sleep_deadline(start, ticks)) == (now - start >= ticks),
{
}

/// A sleeper stays registered while its tick has not come and is let go by the tick
/// that reaches it.
pub proof fn lemma_sleeper_released_when_due(sleepers: Seq<SleeperEntry>, t: u64, e: SleeperEntry)
    requires
        sleepers.contains(e),
    ensures
        still_sleeping(sleepers, t).count(e) > 0 <==> e.wake_tick > t,
{
}

} // verus!

verus! {

/// A sleep is due strictly after the tick it starts at (a zero sleep one tick
/// later), `ticks` ticks later when that fits, and at the last tick otherwise.
pub proof fn lemma_sleep_deadline_after_start(current: u64, ticks: u64)
    ensures
        current < u64::MAX ==> sleep_deadline(current, ticks) > current,
        ticks == 0 && current < u64::MAX ==> sleep_deadline(current, ticks) == current + 1,
        ticks > 0 && current + ticks <= u64::MAX ==> sleep_deadline(current, ticks) == current
            + ticks,
        current + ticks > u64::MAX ==> sleep_deadline(current, ticks) == u64::MAX,
        current == u64::MAX ==> sleep_deadline(current, ticks) == u64::MAX,
{
}

/// A poll that is given which sleepers belong to the polling task keeps one entry
/// per task: when one is marked, the first marked entry takes the new deadline and
/// waker in place and no entry is added; when none is, one entry is added at the
/// end and the others stay.
pub proof fn lemma_register_keeps_one_entry(
    sleepers: Seq<SleeperEntry>,
    same_task: Seq<bool>,
    entry: SleeperEntry,
    i: int,
)
    requires
        same_task.len() == sleepers.len(),
    ensures
        is_first_match(same_task, i) ==> register_spec(sleepers, same_task, entry).len()
            == sleepers.len() && register_spec(sleepers, same_task, entry)[i] == entry && forall|
            j: int|
            0 <= j < sleepers.len() && j != i ==> #[trigger] register_spec(
                sleepers,
                same_task,
                entry,
            )[j] == sleepers[j],
        (forall|j: int| 0 <= j < same_task.len() ==> !#[trigger] same_task[j]) ==> register_spec(
            sleepers,
            same_task,
            entry,
        ) == sleepers.push(entry),
{
    if is_first_match(same_task, i) {
        let k = choose|k: int| is_first_match(same_task, k);
        assert(k == i) by {
            if k < i {
                assert(!same_task[k]);
            } else if i < k {
                assert(!same_task[i]);
            }
        }
    }
}

} // verus!
