//! The task executor: tasks waiting to be polled sit in one of two bounded
//! queues by priority, and a task is only polled again after its waker puts it
//! back in its queue.
use vstd::prelude::*;
use std::collections::BTreeMap;
use crossbeam_queue::ArrayQueue;
use crate::counter::count_up;
use crate::queue::{
    array_queue_capacity, array_queue_items, queue_is_empty, queue_len, queue_new, queue_pop,
    queue_push, queue_wf,
};
use crate::task::{Task, TaskId, TaskPriority};

verus! {

broadcast use vstd::std_specs::btree::group_btree_axioms;

/// How many task ids each priority queue holds.
pub const TASK_QUEUE_CAPACITY: usize = 100;

/// Why a task could not be spawned.
#[derive(Clone, Copy, Debug, PartialEq, Eq, Structural)]
pub enum SpawnError {
    /// A task with the same id is already known to the executor.
    DuplicateTaskId,
    /// The queue of the task's priority is full.
    QueueFull,
}

/// Counts that describe the executor's load.
#[derive(Clone, Copy, Debug, PartialEq, Eq, Structural)]
pub struct ExecutorStats {
    pub active_tasks: usize,
    pub queued_high_tasks: usize,
    pub queued_normal_tasks: usize,
    pub cached_wakers: usize,
    pub dropped_wakes: u64,
}

/// The ready queues as mathematical values.
pub struct QueuesView {
    /// Ids of high-priority tasks ready to run, oldest first.
    pub high: Seq<u64>,
    /// Ids of normal-priority tasks ready to run, oldest first.
    pub normal: Seq<u64>,
    /// Wake-ups that were lost because the task's queue was full.
    pub dropped_wakes: u64,
}

/// The queue that holds tasks of priority `p`.
pub open spec fn queue_for(v: QueuesView, p: TaskPriority) -> Seq<u64> {
    match p {
        TaskPriority::High => v.high,
        TaskPriority::Normal => v.normal,
    }
}

/// Whether the queue of priority `p` has room for one more id.
pub open spec fn has_room(v: QueuesView, p: TaskPriority) -> bool {
    queue_for(v, p).len() < TASK_QUEUE_CAPACITY
}

/// The queues with `id` appended to the queue of priority `p`.
pub open spec fn enqueued(v: QueuesView, id: u64, p: TaskPriority) -> QueuesView {
    match p {
        TaskPriority::High => QueuesView { high: v.high.push(id), ..v },
        TaskPriority::Normal => QueuesView { normal: v.normal.push(id), ..v },
    }
}

/// The queues after a waker fires for task `id`: the id is queued when there is
/// room, and otherwise the lost wake-up is counted.
pub open spec fn wake_spec(v: QueuesView, id: u64, p: TaskPriority) -> QueuesView {
    if has_room(v, p) {
        enqueued(v, id, p)
    } else {
        QueuesView { dropped_wakes: count_up(v.dropped_wakes), ..v }
    }
}

/// The next task to run: the oldest high-priority one, else the oldest normal one.
pub open spec fn next_task_spec(v: QueuesView) -> Option<u64> {
    if v.high.len() > 0 {
        Some(v.high[0])
    } else if v.normal.len() > 0 {
        Some(v.normal[0])
    } else {
        None
    }
}

/// The queues once the next task has been taken out.
pub open spec fn after_next_task(v: QueuesView) -> QueuesView {
    if v.high.len() > 0 {
        QueuesView { high: v.high.drop_first(), ..v }
    } else if v.normal.len() > 0 {
        QueuesView { normal: v.normal.drop_first(), ..v }
    } else {
        v
    }
}

/// The two ready queues of an executor, shared with the tasks' wakers.
pub struct TaskQueues {
    high: ArrayQueue<u64>,
    normal: ArrayQueue<u64>,
    dropped_wakes: u64,
}

impl View for TaskQueues {
    type V = QueuesView;

    closed spec fn view(&self) -> QueuesView {
        QueuesView {
            high: array_queue_items(self.high),
            normal: array_queue_items(self.normal),
            dropped_wakes: self.dropped_wakes,
        }
    }
}

impl TaskQueues {
    /// Both queues have the fixed capacity.
    pub closed spec fn wf(&self) -> bool {
        &&& queue_wf(self.high)
        &&& queue_wf(self.normal)
        &&& array_queue_capacity(self.high) == TASK_QUEUE_CAPACITY
        &&& array_queue_capacity(self.normal) == TASK_QUEUE_CAPACITY
    }

    /// Two empty queues and no lost wake-up.
    pub fn new() -> (q: Self)
        ensures
            q.wf(),
            q@ == (QueuesView {
                high: Seq::<u64>::empty(),
                normal: Seq::<u64>::empty(),
                dropped_wakes: 0,
            }),
    {
        TaskQueues {
            high: queue_new(TASK_QUEUE_CAPACITY),
            normal: queue_new(TASK_QUEUE_CAPACITY),
            dropped_wakes: 0,
        }
    }

    /// Appends `id` to the queue of `priority`; whether there was room.
    fn push_task(&mut self, id: u64, priority: TaskPriority) -> (queued: bool)
        requires
            old(self).wf(),
        ensures
            final(self).wf(),
            queued == has_room(old(self)@, priority),
            queued ==> final(self)@ == enqueued(old(self)@, id, priority),
            !queued ==> final(self)@ == old(self)@,
    {
        let res = match priority {
            TaskPriority::High => queue_push(&mut self.high, id),
            TaskPriority::Normal => queue_push(&mut self.normal, id),
        };
        res.is_ok()
    }

    /// What a task's waker does: queue the task again, or count the wake-up as
    /// lost when the queue is full (a task already queued is then run anyway).
    pub fn wake_task(&mut self, id: TaskId, priority: TaskPriority)
        requires
            old(self).wf(),
        ensures
            final(self).wf(),
            final(self)@ == wake_spec(old(self)@, id@, priority),
    {
        if !self.push_task(id.as_raw(), priority) {
            self.dropped_wakes = self.dropped_wakes.wrapping_add(1);
        }
    }

    /// Whether no task is waiting to run.
    pub fn is_idle(&self) -> (idle: bool)
        ensures
            idle == (self@.high.len() == 0 && self@.normal.len() == 0),
    {
        queue_is_empty(&self.high) && queue_is_empty(&self.normal)
    }

    /// Wake-ups lost so far.
    pub fn dropped_wakes(&self) -> (n: u64)
        ensures
            n == self@.dropped_wakes,
    {
        self.dropped_wakes
    }
}

/// Takes the next task to run out of the queues: high priority first, oldest first.
pub fn pop_next_task_id(queues: &mut TaskQueues) -> (res: Option<TaskId>)
    requires
        old(queues).wf(),
    ensures
        final(queues).wf(),
        final(queues)@ == after_next_task(old(queues)@),
        match res {
            Some(id) => next_task_spec(old(queues)@) == Some(id@),
            None => next_task_spec(old(queues)@) is None,
        },
{
    let raw = match queue_pop(&mut queues.high) {
        Some(id) => Some(id),
        None => queue_pop(&mut queues.normal),
    };
    match raw {
        Some(id) => Some(TaskId::from_raw(id)),
        None => None,
    }
}

} // verus!

verus! {

/// Which task to poll next: ids are taken from the queues until one names a task
/// in `tasks`; the queues left over, and that task's id (`None` once the queues
/// run dry).
pub open spec fn next_known_task<F>(q: QueuesView, tasks: Map<u64, Task<F>>) -> (QueuesView, Option<u64>)
    decreases q.high.len() + q.normal.len(),
{
    match next_task_spec(q) {
        None => (q, None),
        Some(id) => if tasks.contains_key(id) {
            (after_next_task(q), Some(id))
        } else {
            next_known_task(after_next_task(q), tasks)
        },
    }
}

/// The executor's tasks and cached wakers as mathematical values.
pub struct ExecutorView<F, W> {
    /// Every task not yet completed, by id.
    pub tasks: Map<u64, Task<F>>,
    /// The waker made for each task that has been polled, by id.
    pub wakers: Map<u64, W>,
}

/// The executor after `try_spawn` of `task`, and the queues after it.
pub open spec fn spawn_spec<F, W>(e: ExecutorView<F, W>, q: QueuesView, task: Task<F>) -> (
    ExecutorView<F, W>,
    QueuesView,
    Result<(), SpawnError>,
) {
    let id = task.task_id()@;
    if e.tasks.contains_key(id) {
        // the new task takes the place of the old one but is not queued
        (ExecutorView { tasks: e.tasks.insert(id, task), ..e }, q, Err(SpawnError::DuplicateTaskId))
    } else if !has_room(q, task.task_priority()) {
        (e, q, Err(SpawnError::QueueFull))
    } else {
        (
            ExecutorView { tasks: e.tasks.insert(id, task), ..e },
            enqueued(q, id, task.task_priority()),
            Ok(()),
        )
    }
}

/// The executor after a poll of `task` returned: a finished task is gone together
/// with its waker; an unfinished one is kept for the next wake-up.
pub open spec fn finish_poll_spec<F, W>(e: ExecutorView<F, W>, task: Task<F>, ready: bool) -> ExecutorView<
    F,
    W,
> {
    let id = task.task_id()@;
    if ready {
        ExecutorView { tasks: e.tasks.remove(id), wakers: e.wakers.remove(id) }
    } else {
        ExecutorView { tasks: e.tasks.insert(id, task), ..e }
    }
}

/// The executor's tasks and the wakers it made for them. `F` is the type of the
/// tasks' futures and `W` that of their wakers.
pub struct Executor<F, W> {
    tasks: BTreeMap<u64, Task<F>>,
    waker_cache: BTreeMap<u64, W>,
}

impl<F, W> View for Executor<F, W> {
    type V = ExecutorView<F, W>;

    closed spec fn view(&self) -> ExecutorView<F, W> {
        ExecutorView { tasks: self.tasks@, wakers: self.waker_cache@ }
    }
}

/// Every task is filed under its own id.
pub open spec fn tasks_keyed_by_id<F>(tasks: Map<u64, Task<F>>) -> bool {
    forall|k: u64| #[trigger] tasks.contains_key(k) ==> tasks[k].task_id()@ == k
}

impl<F, W> Executor<F, W> {
    /// An executor with no task.
    pub fn new() -> (e: Self)
        ensures
            e@.tasks == Map::<u64, Task<F>>::empty(),
            e@.wakers == Map::<u64, W>::empty(),
    {
        Executor { tasks: BTreeMap::new(), waker_cache: BTreeMap::new() }
    }

    /// Adds `task` and queues it to run. A task whose id is already known is
    /// refused, as is one whose queue is full (it is then dropped).
    pub fn try_spawn(&mut self, queues: &mut TaskQueues, task: Task<F>) -> (res: Result<(), SpawnError>)
        requires
            old(queues).wf(),
            tasks_keyed_by_id(old(self)@.tasks),
        ensures
            final(queues).wf(),
            tasks_keyed_by_id(final(self)@.tasks),
            (final(self)@, final(queues)@, res) == spawn_spec(old(self)@, old(queues)@, task),
    {
        let task_id = task.id();
        let task_priority = task.priority();
        let raw = task_id.as_raw();
        if self.tasks.insert(raw, task).is_some() {
            return Err(SpawnError::DuplicateTaskId);
        }
        if !queues.push_task(raw, task_priority) {
            self.tasks.remove(&raw);
            assert(self.tasks@ =~= old(self)@.tasks);
            return Err(SpawnError::QueueFull);
        }
        Ok(())
    }

    /// Adds `task` and queues it to run, when its id is new and its queue has room.
    pub fn spawn(&mut self, queues: &mut TaskQueues, task: Task<F>)
        requires
            old(queues).wf(),
            tasks_keyed_by_id(old(self)@.tasks),
            !old(self)@.tasks.contains_key(task.task_id()@),
            has_room(old(queues)@, task.task_priority()),
        ensures
            final(queues).wf(),
            tasks_keyed_by_id(final(self)@.tasks),
            final(self)@ == (ExecutorView {
                tasks: old(self)@.tasks.insert(task.task_id()@, task),
                ..old(self)@
            }),
            final(queues)@ == enqueued(old(queues)@, task.task_id()@, task.task_priority()),
    {
        let res = self.try_spawn(queues, task);
        assert(res is Ok);
    }

    /// Takes the next task to poll out of the executor: ids are taken from the
    /// queues (high priority first, oldest first) until one names a task that is
    /// still known; ids of tasks that completed in the meantime are skipped.
    pub fn next_task_to_poll(&mut self, queues: &mut TaskQueues) -> (res: Option<Task<F>>)
        requires
            old(queues).wf(),
            tasks_keyed_by_id(old(self)@.tasks),
        ensures
            final(queues).wf(),
            tasks_keyed_by_id(final(self)@.tasks),
            final(self)@.wakers == old(self)@.wakers,
            final(queues)@ == next_known_task(old(queues)@, old(self)@.tasks).0,
            match res {
                Some(t) => {
                    let id = t.task_id()@;
                    &&& next_known_task(old(queues)@, old(self)@.tasks).1 == Some(id)
                    &&& old(self)@.tasks.contains_key(id)
                    &&& t == old(self)@.tasks[id]
                    &&& final(self)@.tasks == old(self)@.tasks.remove(id)
                },
                None => {
                    &&& next_known_task(old(queues)@, old(self)@.tasks).1 is None
                    &&& final(self)@.tasks == old(self)@.tasks
                },
            },
    {
        loop
            invariant
                queues.wf(),
                self@ == old(self)@,
                tasks_keyed_by_id(self@.tasks),
                next_known_task(queues@, self@.tasks) == next_known_task(
                    old(queues)@,
                    old(self)@.tasks,
                ),
            decreases queues@.high.len() + queues@.normal.len(),
        {
            let task_id = match pop_next_task_id(queues) {
                Some(id) => id,
                None => return None,
            };
            let raw = task_id.as_raw();
            if self.tasks.contains_key(&raw) {
                let res = self.tasks.remove(&raw);
                assert(self.tasks@ =~= old(self)@.tasks.remove(task_id@));
                return res;
            }
        }
    }

    /// The waker of task `id` to poll it with: the one kept for it, or else one made
    /// by `make`, which is then kept.
    pub fn waker_or_insert_with<M: FnOnce() -> W>(&mut self, id: TaskId, make: M) -> (w: &W)
        requires
            make.requires(()),
        ensures
            final(self)@.tasks == old(self)@.tasks,
            old(self)@.wakers.contains_key(id@) ==> final(self)@.wakers == old(self)@.wakers,
            !old(self)@.wakers.contains_key(id@) ==> exists|made: W|
                make.ensures((), made) && final(self)@.wakers == old(self)@.wakers.insert(
                    id@,
                    made,
                ),
            final(self)@.wakers.contains_key(id@),
            *w == final(self)@.wakers[id@],
    {
        let raw = id.as_raw();
        if !self.waker_cache.contains_key(&raw) {
            let made = make();
            self.waker_cache.insert(raw, made);
        }
        self.waker_cache.get(&raw).unwrap()
    }

    /// Records the outcome of polling `task` (taken out with `next_task_to_poll`):
    /// `ready` when its future completed.
    pub fn finish_poll(&mut self, task: Task<F>, ready: bool)
        requires
            tasks_keyed_by_id(old(self)@.tasks),
        ensures
            tasks_keyed_by_id(final(self)@.tasks),
            final(self)@ == finish_poll_spec(old(self)@, task, ready),
    {
        let raw = task.id().as_raw();
        if ready {
            self.tasks.remove(&raw);
            self.waker_cache.remove(&raw);
            assert(self.tasks@ =~= old(self)@.tasks.remove(raw as u64));
            assert(self.waker_cache@ =~= old(self)@.wakers.remove(raw as u64));
        } else {
            self.tasks.insert(raw, task);
        }
    }

    /// The executor's current load.
    pub fn stats(&self, queues: &TaskQueues) -> (s: ExecutorStats)
        ensures
            s.active_tasks == self@.tasks.len(),
            s.queued_high_tasks == queues@.high.len(),
            s.queued_normal_tasks == queues@.normal.len(),
            s.cached_wakers == self@.wakers.len(),
            s.dropped_wakes == queues@.dropped_wakes,
    {
        ExecutorStats {
            active_tasks: self.tasks.len(),
            queued_high_tasks: queue_len(&queues.high),
            queued_normal_tasks: queue_len(&queues.normal),
            cached_wakers: self.waker_cache.len(),
            dropped_wakes: queues.dropped_wakes,
        }
    }
}

} // verus!

verus! {

/// The load figures last published by the executor loop, readable from
/// elsewhere (for a diagnostic report).
#[derive(Clone, Copy, Debug, PartialEq, Eq, Structural)]
pub struct StatsSnapshot {
    pub active_tasks: u64,
    pub queued_high_tasks: u64,
    pub queued_normal_tasks: u64,
    pub cached_wakers: u64,
}

impl StatsSnapshot {
    /// Nothing published yet: all figures zero.
    pub fn new() -> (s: Self)
        ensures
            s == (StatsSnapshot {
                active_tasks: 0,
                queued_high_tasks: 0,
                queued_normal_tasks: 0,
                cached_wakers: 0,
            }),
    {
        StatsSnapshot { active_tasks: 0, queued_high_tasks: 0, queued_normal_tasks: 0, cached_wakers: 0 }
    }
}

impl<F, W> Executor<F, W> {
    /// Publishes the executor's current load to `snapshot`.
    pub fn update_stats_snapshot(&self, queues: &TaskQueues, snapshot: &mut StatsSnapshot)
        ensures
            final(snapshot).active_tasks == self@.tasks.len(),
            final(snapshot).queued_high_tasks == queues@.high.len(),
            final(snapshot).queued_normal_tasks == queues@.normal.len(),
            final(snapshot).cached_wakers == self@.wakers.len(),
    {
        snapshot.active_tasks = self.tasks.len() as u64;
        snapshot.queued_high_tasks = queue_len(&queues.high) as u64;
        snapshot.queued_normal_tasks = queue_len(&queues.normal) as u64;
        snapshot.cached_wakers = self.waker_cache.len() as u64;
    }
}

/// The figures last published, with the current count of lost wake-ups.
pub fn global_stats_snapshot(snapshot: &StatsSnapshot, queues: &TaskQueues) -> (s: ExecutorStats)
    ensures
        s.active_tasks == snapshot.active_tasks as usize,
        s.queued_high_tasks == snapshot.queued_high_tasks as usize,
        s.queued_normal_tasks == snapshot.queued_normal_tasks as usize,
        s.cached_wakers == snapshot.cached_wakers as usize,
        s.dropped_wakes == queues@.dropped_wakes,
{
    ExecutorStats {
        active_tasks: snapshot.active_tasks as usize,
        queued_high_tasks: snapshot.queued_high_tasks as usize,
        queued_normal_tasks: snapshot.queued_normal_tasks as usize,
        cached_wakers: snapshot.cached_wakers as usize,
        dropped_wakes: queues.dropped_wakes,
    }
}

/// A published figure reads back unchanged: a count that fits in `usize` survives
/// the trip through the snapshot's `u64`.
pub proof fn lemma_snapshot_round_trip(n: usize)
    ensures
        ((n as u64) as usize) == n,
{
}

/// A spawn refused because the queue is full changes nothing.
pub proof fn lemma_full_queue_refusal_changes_nothing<F, W>(
    e: ExecutorView<F, W>,
    q: QueuesView,
    task: Task<F>,
)
    requires
        spawn_spec(e, q, task).2 == Err::<(), SpawnError>(SpawnError::QueueFull),
    ensures
        spawn_spec(e, q, task).0 == e,
        spawn_spec(e, q, task).1 == q,
{
}

/// A spawn refused for a duplicate id queues nothing; the task known under that id
/// is then the new one.
pub proof fn lemma_duplicate_refusal_queues_nothing<F, W>(
    e: ExecutorView<F, W>,
    q: QueuesView,
    task: Task<F>,
)
    requires
        spawn_spec(e, q, task).2 == Err::<(), SpawnError>(SpawnError::DuplicateTaskId),
    ensures
        spawn_spec(e, q, task).1 == q,
        spawn_spec(e, q, task).0.tasks == e.tasks.insert(task.task_id()@, task),
        spawn_spec(e, q, task).0.wakers == e.wakers,
{
}

/// A high-priority task runs first: spawned after a normal-priority task into an
/// idle executor, it is still the next task taken out of the queues.
pub proof fn lemma_high_priority_runs_first<F, W>(
    e: ExecutorView<F, W>,
    q: QueuesView,
    normal: Task<F>,
    high: Task<F>,
)
    requires
        q.high.len() == 0,
        q.normal.len() == 0,
        normal.task_priority() == TaskPriority::Normal,
        high.task_priority() == TaskPriority::High,
        !e.tasks.contains_key(normal.task_id()@),
        !e.tasks.contains_key(high.task_id()@),
        normal.task_id()@ != high.task_id()@,
    ensures
        ({
            let (e1, q1, r1) = spawn_spec(e, q, normal);
            let (e2, q2, r2) = spawn_spec(e1, q1, high);
            &&& r1 is Ok
            &&& r2 is Ok
            &&& next_task_spec(q2) == Some(high.task_id()@)
            &&& next_task_spec(after_next_task(q2)) == Some(normal.task_id()@)
        }),
{
}

/// A task that completes is forgotten together with its waker; one that does not
/// stays known.
pub proof fn lemma_completed_task_forgotten<F, W>(e: ExecutorView<F, W>, task: Task<F>, ready: bool)
    ensures
        ready ==> !finish_poll_spec(e, task, ready).tasks.contains_key(task.task_id()@),
        ready ==> !finish_poll_spec(e, task, ready).wakers.contains_key(task.task_id()@),
        !ready ==> finish_poll_spec(e, task, ready).tasks.contains_key(task.task_id()@),
        !ready ==> finish_poll_spec(e, task, ready).wakers == e.wakers,
{
}

/// A wake-up is never lost silently: the task is queued at the back of its queue,
/// or the queue is full and the lost wake-up is counted.
pub proof fn lemma_wake_queues_or_counts(q: QueuesView, id: u64, p: TaskPriority)
    ensures
        has_room(q, p) ==> queue_for(wake_spec(q, id, p), p) == queue_for(q, p).push(id),
        !has_room(q, p) ==> queue_for(wake_spec(q, id, p), p) == queue_for(q, p)
            && wake_spec(q, id, p).dropped_wakes == count_up(q.dropped_wakes),
{
}

} // verus!

verus! {

/// Taking the next task to poll takes ids from the front of the queues, never takes
/// a normal-priority id while high-priority ids are left, returns only a task that
/// is known, and leaves both queues empty when it finds none.
pub proof fn lemma_next_known_task_order<F>(q: QueuesView, tasks: Map<u64, Task<F>>)
    ensures
        ({
            let (q2, r) = next_known_task(q, tasks);
            &&& q2.dropped_wakes == q.dropped_wakes
            &&& q2.high.len() <= q.high.len()
            &&& q2.normal.len() <= q.normal.len()
            &&& q2.high == q.high.skip(q.high.len() - q2.high.len())
            &&& q2.normal == q.normal.skip(q.normal.len() - q2.normal.len())
            &&& q2.high.len() > 0 ==> q2.normal == q.normal
            &&& r is None ==> q2.high.len() == 0 && q2.normal.len() == 0
            &&& r matches Some(id) ==> tasks.contains_key(id)
        }),
    decreases q.high.len() + q.normal.len(),
{
    assert(q.high.skip(0) =~= q.high);
    assert(q.normal.skip(0) =~= q.normal);
    match next_task_spec(q) {
        None => {},
        Some(id) => {
            let q1 = after_next_task(q);
            if !tasks.contains_key(id) {
                lemma_next_known_task_order(q1, tasks);
                let q2 = next_known_task(q1, tasks).0;
                if q.high.len() > 0 {
                    assert(q2.high =~= q.high.skip(q.high.len() - q2.high.len()));
                } else {
                    assert(q2.normal =~= q.normal.skip(q.normal.len() - q2.normal.len()));
                }
            } else {
                assert(q1.high =~= q.high.skip(q.high.len() - q1.high.len()));
                assert(q1.normal =~= q.normal.skip(q.normal.len() - q1.normal.len()));
            }
        },
    }
}

/// Every cached waker belongs to a known task.
pub open spec fn wakers_within_tasks<F, W>(e: ExecutorView<F, W>) -> bool {
    forall|id: u64| #[trigger] e.wakers.contains_key(id) ==> e.tasks.contains_key(id)
}

/// One round of the executor loop for the known task `id`: it is taken out, a waker
/// `w` is cached for it unless one is, it is polled (`ready` when it completed), and
/// the outcome is recorded.
pub open spec fn poll_step<F, W>(e: ExecutorView<F, W>, id: u64, w: W, ready: bool) -> ExecutorView<
    F,
    W,
> {
    let task = e.tasks[id];
    let taken = ExecutorView { tasks: e.tasks.remove(id), ..e };
    let cached = if taken.wakers.contains_key(id) {
        taken
    } else {
        ExecutorView { wakers: taken.wakers.insert(id, w), ..taken }
    };
    finish_poll_spec(cached, task, ready)
}

/// One round of the loop keeps every task filed under its id and every cached waker
/// tied to a known task; the polled task is gone if it completed and kept otherwise.
pub proof fn lemma_poll_step<F, W>(e: ExecutorView<F, W>, id: u64, w: W, ready: bool)
    requires
        tasks_keyed_by_id(e.tasks),
        wakers_within_tasks(e),
        e.tasks.contains_key(id),
    ensures
        tasks_keyed_by_id(poll_step(e, id, w, ready).tasks),
        wakers_within_tasks(poll_step(e, id, w, ready)),
        ready ==> poll_step(e, id, w, ready).tasks == e.tasks.remove(id),
        !ready ==> poll_step(e, id, w, ready).tasks == e.tasks,
        ready ==> !poll_step(e, id, w, ready).wakers.contains_key(id),
{
    let task = e.tasks[id];
    assert(task.task_id()@ == id);
    if !ready {
        assert(e.tasks.remove(id).insert(id, task) =~= e.tasks);
    }
}

/// What one poll did: whether the future completed, and the wake-ups its wakers
/// made while it ran (each the id and priority its waker was made for).
pub struct PollRecord {
    pub ready: bool,
    pub wakes: Seq<(u64, TaskPriority)>,
}

/// The queues after the wake-ups `wakes`, first to last.
pub open spec fn apply_wakes(q: QueuesView, wakes: Seq<(u64, TaskPriority)>) -> QueuesView
    decreases wakes.len(),
{
    if wakes.len() == 0 {
        q
    } else {
        apply_wakes(wake_spec(q, wakes[0].0, wakes[0].1), wakes.drop_first())
    }
}

/// Every queued id of a known task sits in the queue of that task's priority.
pub open spec fn queues_match_priority<F>(tasks: Map<u64, Task<F>>, q: QueuesView) -> bool {
    &&& forall|i: int|
        0 <= i < q.high.len() && tasks.contains_key(#[trigger] q.high[i]) ==> tasks[q.high[
            i
        ]].task_priority() == TaskPriority::High
    &&& forall|i: int|
        0 <= i < q.normal.len() && tasks.contains_key(#[trigger] q.normal[i]) ==> tasks[q.normal[
            i
        ]].task_priority() == TaskPriority::Normal
}

/// Every wake-up of a known task carries that task's priority (as the waker made
/// for the task does).
pub open spec fn wakes_match<F>(tasks: Map<u64, Task<F>>, wakes: Seq<(u64, TaskPriority)>) -> bool {
    forall|k: int|
        0 <= k < wakes.len() && tasks.contains_key(#[trigger] wakes[k].0) ==> tasks[wakes[
            k
        ].0].task_priority() == wakes[k].1
}

/// A run of the executor loop: ids are taken from the queues (high first, oldest
/// first); an id of a task no longer known is dropped; a known task is polled, with
/// `records` giving what each poll did in turn, its outcome is recorded and the
/// wake-ups made during the poll are queued. The run ends when the queues are empty
/// or when a known task is next and no record is left. The executor and queues at
/// the end, and the ids of the tasks that completed.
pub open spec fn run_spec<F, W>(e: ExecutorView<F, W>, q: QueuesView, w: W, records: Seq<PollRecord>) -> (
    ExecutorView<F, W>,
    QueuesView,
    Set<u64>,
)
    decreases records.len(), q.high.len() + q.normal.len(),
{
    match next_task_spec(q) {
        None => (e, q, Set::empty()),
        Some(id) => {
            if !e.tasks.contains_key(id) {
                run_spec(e, after_next_task(q), w, records)
            } else if records.len() == 0 {
                (e, q, Set::empty())
            } else {
                let r = records[0];
                let (e2, q2, done) = run_spec(
                    poll_step(e, id, w, r.ready),
                    apply_wakes(after_next_task(q), r.wakes),
                    w,
                    records.drop_first(),
                );
                (e2, q2, if r.ready {
                    done.insert(id)
                } else {
                    done
                })
            }
        },
    }
}

/// Whether, along the run, every poll of a normal-priority task happens while the
/// high-priority queue is empty.
pub open spec fn run_respects_priority<F, W>(
    e: ExecutorView<F, W>,
    q: QueuesView,
    w: W,
    records: Seq<PollRecord>,
) -> bool
    decreases records.len(), q.high.len() + q.normal.len(),
{
    match next_task_spec(q) {
        None => true,
        Some(id) => {
            if !e.tasks.contains_key(id) {
                run_respects_priority(e, after_next_task(q), w, records)
            } else if records.len() == 0 {
                true
            } else {
                let r = records[0];
                &&& (e.tasks[id].task_priority() == TaskPriority::Normal ==> q.high.len() == 0)
                &&& run_respects_priority(
                    poll_step(e, id, w, r.ready),
                    apply_wakes(after_next_task(q), r.wakes),
                    w,
                    records.drop_first(),
                )
            }
        },
    }
}

/// Taking the next id out keeps queued ids in the queues of their tasks' priorities.
proof fn lemma_after_next_keeps_match<F>(tasks: Map<u64, Task<F>>, q: QueuesView)
    requires
        queues_match_priority(tasks, q),
    ensures
        queues_match_priority(tasks, after_next_task(q)),
{
    let q1 = after_next_task(q);
    assert forall|i: int|
        0 <= i < q1.high.len() && tasks.contains_key(#[trigger] q1.high[i]) implies tasks[q1.high[
        i
    ]].task_priority() == TaskPriority::High by {
        if q.high.len() > 0 {
            assert(q1.high[i] == q.high[i + 1]);
        }
    }
    assert forall|i: int|
        0 <= i < q1.normal.len() && tasks.contains_key(#[trigger] q1.normal[i]) implies tasks[q1.normal[
        i
    ]].task_priority() == TaskPriority::Normal by {
        if q.high.len() == 0 && q.normal.len() > 0 {
            assert(q1.normal[i] == q.normal[i + 1]);
        }
    }
}

/// Queued wake-ups that carry their tasks' priorities keep queued ids in the right
/// queues.
proof fn lemma_wakes_keep_match<F>(tasks: Map<u64, Task<F>>, q: QueuesView, wakes: Seq<(u64, TaskPriority)>)
    requires
        queues_match_priority(tasks, q),
        wakes_match(tasks, wakes),
    ensures
        queues_match_priority(tasks, apply_wakes(q, wakes)),
        apply_wakes(q, wakes).high.len() >= q.high.len(),
    decreases wakes.len(),
{
    if wakes.len() > 0 {
        let (id, p) = wakes[0];
        let q1 = wake_spec(q, id, p);
        assert(tasks.contains_key(wakes[0].0) ==> tasks[wakes[0].0].task_priority() == wakes[0].1);
        assert forall|i: int|
            0 <= i < q1.high.len() && tasks.contains_key(#[trigger] q1.high[i]) implies tasks[q1.high[
            i
        ]].task_priority() == TaskPriority::High by {
            if i < q.high.len() {
                assert(q1.high[i] == q.high[i]);
            }
        }
        assert forall|i: int|
            0 <= i < q1.normal.len() && tasks.contains_key(#[trigger] q1.normal[i]) implies tasks[q1.normal[
            i
        ]].task_priority() == TaskPriority::Normal by {
            if i < q.normal.len() {
                assert(q1.normal[i] == q.normal[i]);
            }
        }
        let rest = wakes.drop_first();
        assert forall|k: int|
            0 <= k < rest.len() && tasks.contains_key(#[trigger] rest[k].0) implies tasks[rest[
            k
        ].0].task_priority() == rest[k].1 by {
            assert(rest[k] == wakes[k + 1]);
        }
        lemma_wakes_keep_match(tasks, q1, rest);
    }
}

/// Forgetting tasks keeps queued ids in the right queues.
proof fn lemma_fewer_tasks_keep_match<F>(tasks: Map<u64, Task<F>>, fewer: Map<u64, Task<F>>, q: QueuesView)
    requires
        queues_match_priority(tasks, q),
        fewer.submap_of(tasks),
    ensures
        queues_match_priority(fewer, q),
{
    assert forall|i: int|
        0 <= i < q.high.len() && fewer.contains_key(#[trigger] q.high[i]) implies fewer[q.high[
        i
    ]].task_priority() == TaskPriority::High by {
        assert(tasks.contains_key(q.high[i]));
    }
    assert forall|i: int|
        0 <= i < q.normal.len() && fewer.contains_key(#[trigger] q.normal[i]) implies fewer[q.normal[
        i
    ]].task_priority() == TaskPriority::Normal by {
        assert(tasks.contains_key(q.normal[i]));
    }
}

/// A run of the executor loop, wake-ups during polls included: it stops only with
/// both queues empty or with a known task next and no record left; the tasks left are
/// exactly those known before that did not complete; every cached waker still belongs
/// to a known task; queued ids stay in the queues of their tasks' priorities; and no
/// normal-priority task is polled while a high-priority id is queued.
pub proof fn lemma_executor_run<F, W>(e: ExecutorView<F, W>, q: QueuesView, w: W, records: Seq<PollRecord>)
    requires
        tasks_keyed_by_id(e.tasks),
        wakers_within_tasks(e),
        queues_match_priority(e.tasks, q),
        forall|k: int| 0 <= k < records.len() ==> wakes_match(e.tasks, #[trigger] records[k].wakes),
    ensures
        ({
            let (e2, q2, done) = run_spec(e, q, w, records);
            &&& (q2.high.len() == 0 && q2.normal.len() == 0) || (next_task_spec(q2) matches Some(id)
                && e2.tasks.contains_key(id))
            &&& done.subset_of(e.tasks.dom())
            &&& e2.tasks.dom() == e.tasks.dom().difference(done)
            &&& e2.tasks.submap_of(e.tasks)
            &&& tasks_keyed_by_id(e2.tasks)
            &&& wakers_within_tasks(e2)
            &&& queues_match_priority(e2.tasks, q2)
            &&& run_respects_priority(e, q, w, records)
        }),
    decreases records.len(), q.high.len() + q.normal.len(),
{
    match next_task_spec(q) {
        None => {
            assert(e.tasks.dom().difference(Set::<u64>::empty()) =~= e.tasks.dom());
        },
        Some(id) => {
            let q1 = after_next_task(q);
            lemma_after_next_keeps_match(e.tasks, q);
            if !e.tasks.contains_key(id) {
                lemma_executor_run(e, q1, w, records);
            } else if records.len() == 0 {
                assert(e.tasks.dom().difference(Set::<u64>::empty()) =~= e.tasks.dom());
            } else {
                let r = records[0];
                let e1 = poll_step(e, id, w, r.ready);
                lemma_poll_step(e, id, w, r.ready);
                assert(e1.tasks.submap_of(e.tasks));
                lemma_fewer_tasks_keep_match(e.tasks, e1.tasks, q1);
                assert(wakes_match(e.tasks, records[0].wakes));
                assert(wakes_match(e1.tasks, r.wakes)) by {
                    assert forall|k: int|
                        0 <= k < r.wakes.len() && e1.tasks.contains_key(#[trigger] r.wakes[k].0) implies e1.tasks[r.wakes[
                        k
                    ].0].task_priority() == r.wakes[k].1 by {
                        assert(e.tasks.contains_key(r.wakes[k].0));
                    }
                }
                let q2 = apply_wakes(q1, r.wakes);
                lemma_wakes_keep_match(e1.tasks, q1, r.wakes);
                let rest = records.drop_first();
                assert forall|k: int| 0 <= k < rest.len() implies wakes_match(
                    e1.tasks,
                    #[trigger] rest[k].wakes,
                ) by {
                    assert(rest[k] == records[k + 1]);
                    assert(wakes_match(e.tasks, records[k + 1].wakes));
                    assert forall|m: int|
                        0 <= m < rest[k].wakes.len() && e1.tasks.contains_key(#[trigger] rest[k].wakes[m].0) implies e1.tasks[rest[k].wakes[
                        m
                    ].0].task_priority() == rest[k].wakes[m].1 by {
                        assert(e.tasks.contains_key(rest[k].wakes[m].0));
                    }
                }
                lemma_executor_run(e1, q2, w, rest);
                let (e3, q3, done) = run_spec(e1, q2, w, rest);
                if q.high.len() > 0 {
                    assert(q.high[0] == id);
                    assert(e.tasks[id].task_priority() == TaskPriority::High);
                }
                if r.ready {
                    assert(e3.tasks.dom() =~= e.tasks.dom().difference(done.insert(id)));
                } else {
                    assert(e1.tasks.dom() =~= e.tasks.dom());
                }
            }
        },
    }
}

} // verus!

verus! {

/// A wake-up touches only the queue of its own priority: with room there, the id
/// goes to the back of that queue and nothing else changes; with that queue full,
/// the queues stay as they were and one more lost wake-up is counted (wrapping).
pub proof fn lemma_wake_touches_only_its_queue(q: QueuesView, id: u64, p: TaskPriority)
    ensures
        p == TaskPriority::High ==> wake_spec(q, id, p).normal == q.normal,
        p == TaskPriority::Normal ==> wake_spec(q, id, p).high == q.high,
        p == TaskPriority::High && q.high.len() < 100 ==> wake_spec(q, id, p).high == q.high.push(id)
            && wake_spec(q, id, p).dropped_wakes == q.dropped_wakes,
        p == TaskPriority::Normal && q.normal.len() < 100 ==> wake_spec(q, id, p).normal
            == q.normal.push(id) && wake_spec(q, id, p).dropped_wakes == q.dropped_wakes,
        p == TaskPriority::High && q.high.len() >= 100 ==> wake_spec(q, id, p).high == q.high,
        p == TaskPriority::Normal && q.normal.len() >= 100 ==> wake_spec(q, id, p).normal
            == q.normal,
        queue_for(q, p).len() >= 100 ==> wake_spec(q, id, p).dropped_wakes == if q.dropped_wakes
            == u64::MAX {
            0
        } else {
            (q.dropped_wakes + 1) as u64
        },
{
}

/// Taking the next task out touches one queue only: the front of the high queue
/// when it has ids, and otherwise the front of the normal queue.
pub proof fn lemma_next_task_touches_one_queue(q: QueuesView)
    ensures
        q.high.len() > 0 ==> next_task_spec(q) == Some(q.high[0]) && after_next_task(q).high
            == q.high.subrange(1, q.high.len() as int) && after_next_task(q).normal == q.normal,
        q.high.len() == 0 && q.normal.len() > 0 ==> next_task_spec(q) == Some(q.normal[0])
            && after_next_task(q).normal == q.normal.subrange(1, q.normal.len() as int)
            && after_next_task(q).high == q.high,
        q.high.len() == 0 && q.normal.len() == 0 ==> next_task_spec(q) is None && after_next_task(
            q,
        ) == q,
        after_next_task(q).dropped_wakes == q.dropped_wakes,
{
}

} // verus!
