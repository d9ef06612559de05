//! Tasks: unique task ids, priorities, and a task that carries its future.
use vstd::prelude::*;
use crate::counter::count_up;

verus! {

/// The scheduling class of a task: high-priority tasks run before normal ones.
#[derive(Clone, Copy, Debug, PartialEq, Eq, Structural)]
pub enum TaskPriority {
    High,
    Normal,
}

/// The identifier of a task.
#[derive(Clone, Copy, Debug, PartialEq, Eq, PartialOrd, Ord, Hash, Structural)]
pub struct TaskId(u64);

impl View for TaskId {
    type V = u64;

    closed spec fn view(&self) -> u64 {
        self.0
    }
}

/// The source of task ids: each id is the counter's value, after which the
/// counter moves on by one (wrapping, as an atomic `fetch_add` does).
pub struct TaskIdCounter {
    next: u64,
}

impl View for TaskIdCounter {
    type V = u64;

    closed spec fn view(&self) -> u64 {
        self.next
    }
}

/// The id the counter hands out `k` steps after it stood at `start`.
pub open spec fn nth_id(start: u64, k: nat) -> u64 {
    ((start + k) % 0x1_0000_0000_0000_0000) as u64
}

impl TaskIdCounter {
    /// A counter whose first id is 0.
    pub fn new() -> (c: Self)
        ensures
            c@ == 0,
    {
        TaskIdCounter { next: 0 }
    }
}

impl TaskId {
    /// Takes the next id from `counter`.
    pub fn new(counter: &mut TaskIdCounter) -> (id: TaskId)
        ensures
            id@ == old(counter)@,
            final(counter)@ == count_up(old(counter)@),
    {
        let id = TaskId(counter.next);
        counter.next = counter.next.wrapping_add(1);
        id
    }

    /// The id with the given number.
    pub fn from_raw(raw: u64) -> (id: TaskId)
        ensures
            id@ == raw,
    {
        TaskId(raw)
    }

    /// The number of this id.
    pub fn as_raw(&self) -> (raw: u64)
        ensures
            raw == self@,
    {
        self.0
    }
}

/// Stepping the counter once moves the `k`-th id to the `k + 1`-th.
pub proof fn lemma_count_up_is_next_id(start: u64, k: nat)
    ensures
        count_up(nth_id(start, k)) == nth_id(start, k + 1),
{
    let m: int = 0x1_0000_0000_0000_0000;
    let a = (start + k) % m;
    let q = (start + k) / m;
    assert(start + k == q * m + a && 0 <= a < m) by (nonlinear_arith)
        requires m > 0, a == (start + k) % m, q == (start + k) / m;
    if a == m - 1 {
        assert(start + k + 1 == (q + 1) * m + 0);
        assert((start + k + 1) % m == 0) by (nonlinear_arith)
            requires start + k + 1 == (q + 1) * m, m > 0;
    } else {
        assert(start + k + 1 == q * m + (a + 1));
        assert((start + k + 1) % m == a + 1) by (nonlinear_arith)
            requires start + k + 1 == q * m + (a + 1), 0 <= a + 1 < m;
    }
}

/// Ids are unique: of any 2^64 ids taken one after the other from a counter, no
/// two are equal.
pub proof fn lemma_task_ids_unique(start: u64, j: nat, k: nat)
    requires
        j < k < 0x1_0000_0000_0000_0000,
    ensures
        nth_id(start, j) != nth_id(start, k),
{
    let m: int = 0x1_0000_0000_0000_0000;
    let a = (start + j) % m;
    let b = (start + k) % m;
    if a == b {
        let qa = (start + j) / m;
        let qb = (start + k) / m;
        assert(start + j == qa * m + a) by (nonlinear_arith)
            requires m > 0, a == (start + j) % m, qa == (start + j) / m;
        assert(start + k == qb * m + b) by (nonlinear_arith)
            requires m > 0, b == (start + k) % m, qb == (start + k) / m;
        assert(k - j == (qb - qa) * m) by (nonlinear_arith)
            requires start + j == qa * m + a, start + k == qb * m + b, a == b;
        assert(false) by (nonlinear_arith)
            requires k - j == (qb - qa) * m, 0 < k - j < m, m > 0;
    }
}

/// Ids increase: while the counter has not wrapped, each id is one more than the
/// one before it, and a later id is greater than an earlier one.
pub proof fn lemma_task_ids_increase(start: u64, j: nat, k: nat)
    requires
        j < k,
        start + k < 0x1_0000_0000_0000_0000,
    ensures
        nth_id(start, j) < nth_id(start, k),
        nth_id(start, j + 1) == nth_id(start, j) + 1,
{
    let m: int = 0x1_0000_0000_0000_0000;
    assert((start + j) % m == start + j) by (nonlinear_arith)
        requires 0 <= start + j < m;
    assert((start + j + 1) % m == start + j + 1) by (nonlinear_arith)
        requires 0 <= start + j + 1 < m;
    assert((start + k) % m == start + k) by (nonlinear_arith)
        requires 0 <= start + k < m;
}

/// A task: its id, its priority and the future it runs.
pub struct Task<F> {
    pub id: TaskId,
    pub priority: TaskPriority,
    future: F,
}

impl<F> Task<F> {
    /// The id of the task.
    pub closed spec fn task_id(&self) -> TaskId {
        self.id
    }

    /// The priority of the task.
    pub closed spec fn task_priority(&self) -> TaskPriority {
        self.priority
    }

    /// The future the task runs.
    pub closed spec fn future(&self) -> F {
        self.future
    }

    /// A normal-priority task with a fresh id from `counter`.
    pub fn new(counter: &mut TaskIdCounter, future: F) -> (t: Task<F>)
        ensures
            t.task_id()@ == old(counter)@,
            final(counter)@ == count_up(old(counter)@),
            t.task_priority() == TaskPriority::Normal,
            t.future() == future,
    {
        Self::new_with_priority(counter, future, TaskPriority::Normal)
    }

    /// A task with the given priority and a fresh id from `counter`.
    pub fn new_with_priority(counter: &mut TaskIdCounter, future: F, priority: TaskPriority) -> (t:
        Task<F>)
        ensures
            t.task_id()@ == old(counter)@,
            final(counter)@ == count_up(old(counter)@),
            t.task_priority() == priority,
            t.future() == future,
    {
        Task { id: TaskId::new(counter), priority, future }
    }

    /// The id of the task.
    pub fn id(&self) -> (id: TaskId)
        ensures
            id == self.task_id(),
    {
        self.id
    }

    /// The priority of the task.
    pub fn priority(&self) -> (p: TaskPriority)
        ensures
            p == self.task_priority(),
    {
        self.priority
    }

    /// Access to the future, so that it can be polled.
    pub fn future_mut(&mut self) -> (f: &mut F)
        ensures
            *f == old(self).future(),
            final(self).task_id() == old(self).task_id(),
            final(self).task_priority() == old(self).task_priority(),
            final(self).future() == *final(f),
    {
        &mut self.future
    }
}

} // verus!
