use os_by_rust::executor::{
    global_stats_snapshot, pop_next_task_id, Executor, SpawnError, StatsSnapshot, TaskQueues,
    TASK_QUEUE_CAPACITY,
};
use os_by_rust::task::{Task, TaskId, TaskIdCounter, TaskPriority};

type Exec = Executor<&'static str, u32>;

#[test]
fn high_priority_task_runs_first() {
    let mut ids = TaskIdCounter::new();
    let mut queues = TaskQueues::new();
    let mut executor: Exec = Executor::new();
    let normal = Task::new_with_priority(&mut ids, "normal", TaskPriority::Normal);
    let high = Task::new_with_priority(&mut ids, "high", TaskPriority::High);
    let normal_id = normal.id;
    let high_id = high.id;
    assert_eq!(executor.try_spawn(&mut queues, normal), Ok(()));
    assert_eq!(executor.try_spawn(&mut queues, high), Ok(()));
    assert_eq!(pop_next_task_id(&mut queues), Some(high_id));
    assert_eq!(pop_next_task_id(&mut queues), Some(normal_id));
    assert_eq!(pop_next_task_id(&mut queues), None);
}

#[test]
fn duplicate_task_id_is_refused() {
    let mut queues = TaskQueues::new();
    let mut executor: Exec = Executor::new();
    let mut ids = TaskIdCounter::new();
    let first = Task::new(&mut ids, "first");
    let mut same_ids = TaskIdCounter::new();
    let second = Task::new(&mut same_ids, "second");
    assert_eq!(first.id, second.id);
    assert_eq!(executor.try_spawn(&mut queues, first), Ok(()));
    assert_eq!(executor.try_spawn(&mut queues, second), Err(SpawnError::DuplicateTaskId));
    let stats = executor.stats(&queues);
    assert_eq!(stats.active_tasks, 1);
    assert_eq!(stats.queued_normal_tasks, 1);
    // the entry now holds the second task
    let mut task = executor.next_task_to_poll(&mut queues).unwrap();
    assert_eq!(*task.future_mut(), "second");
}

#[test]
fn full_queue_refuses_spawn_and_rolls_back() {
    let mut ids = TaskIdCounter::new();
    let mut queues = TaskQueues::new();
    let mut executor: Exec = Executor::new();
    for _ in 0..TASK_QUEUE_CAPACITY {
        let t = Task::new(&mut ids, "filler");
        assert_eq!(executor.try_spawn(&mut queues, t), Ok(()));
    }
    let extra = Task::new(&mut ids, "extra");
    let extra_id = extra.id;
    assert_eq!(executor.try_spawn(&mut queues, extra), Err(SpawnError::QueueFull));
    assert_eq!(executor.stats(&queues).active_tasks, TASK_QUEUE_CAPACITY);
    for _ in 0..TASK_QUEUE_CAPACITY {
        let t = executor.next_task_to_poll(&mut queues).unwrap();
        assert_ne!(t.id, extra_id);
    }
    assert!(executor.next_task_to_poll(&mut queues).is_none());
    // the other queue still has room
    let high = Task::new_with_priority(&mut ids, "high", TaskPriority::High);
    assert_eq!(executor.try_spawn(&mut queues, high), Ok(()));
}

#[test]
fn executor_smoke_repeated_wakes() {
    let mut ids = TaskIdCounter::new();
    let mut queues = TaskQueues::new();
    let mut executor: Exec = Executor::new();
    let task = Task::new(&mut ids, "yield");
    executor.spawn(&mut queues, task);
    let mut remaining_yields = 16;
    let mut polls = 0;
    while let Some(task) = executor.next_task_to_poll(&mut queues) {
        let id = task.id;
        assert_eq!(*executor.waker_or_insert_with(id, || 7), 7);
        // a waker already kept is not made again
        assert_eq!(*executor.waker_or_insert_with(id, || 8), 7);
        polls += 1;
        let ready = if remaining_yields == 0 {
            true
        } else {
            remaining_yields -= 1;
            // the task wakes itself twice while pending
            queues.wake_task(id, TaskPriority::Normal);
            queues.wake_task(id, TaskPriority::Normal);
            false
        };
        executor.finish_poll(task, ready);
    }
    assert_eq!(polls, 17);
    let stats = executor.stats(&queues);
    assert_eq!(stats.active_tasks, 0);
    assert_eq!(stats.cached_wakers, 0);
    assert_eq!(stats.queued_normal_tasks, 0);
    assert_eq!(stats.dropped_wakes, 0);
    assert!(queues.is_idle());
}

#[test]
fn wake_on_full_queue_is_counted() {
    let mut queues = TaskQueues::new();
    for i in 0..TASK_QUEUE_CAPACITY as u64 {
        queues.wake_task(TaskId::from_raw(i), TaskPriority::High);
    }
    assert_eq!(queues.dropped_wakes(), 0);
    queues.wake_task(TaskId::from_raw(999), TaskPriority::High);
    queues.wake_task(TaskId::from_raw(998), TaskPriority::High);
    assert_eq!(queues.dropped_wakes(), 2);
    queues.wake_task(TaskId::from_raw(997), TaskPriority::Normal);
    assert_eq!(queues.dropped_wakes(), 2);
    assert_eq!(pop_next_task_id(&mut queues), Some(TaskId::from_raw(0)));
}

#[test]
fn stats_snapshot_round_trip() {
    let mut ids = TaskIdCounter::new();
    let mut queues = TaskQueues::new();
    let mut executor: Exec = Executor::new();
    let mut snapshot = StatsSnapshot::new();
    assert_eq!(global_stats_snapshot(&snapshot, &queues).active_tasks, 0);
    executor.spawn(&mut queues, Task::new(&mut ids, "a"));
    executor.spawn(&mut queues, Task::new_with_priority(&mut ids, "b", TaskPriority::High));
    executor.waker_or_insert_with(TaskId::from_raw(0), || 1);
    executor.update_stats_snapshot(&queues, &mut snapshot);
    let stats = executor.stats(&queues);
    assert_eq!(global_stats_snapshot(&snapshot, &queues), stats);
    assert_eq!(stats.active_tasks, 2);
    assert_eq!(stats.queued_high_tasks, 1);
    assert_eq!(stats.queued_normal_tasks, 1);
    assert_eq!(stats.cached_wakers, 1);
}

#[test]
fn completed_task_and_waker_are_dropped() {
    let mut ids = TaskIdCounter::new();
    let mut queues = TaskQueues::new();
    let mut executor: Exec = Executor::new();
    executor.spawn(&mut queues, Task::new(&mut ids, "job"));
    let task = executor.next_task_to_poll(&mut queues).unwrap();
    let id = task.id;
    executor.waker_or_insert_with(id, || 3);
    assert_eq!(executor.stats(&queues).cached_wakers, 1);
    executor.finish_poll(task, true);
    assert_eq!(executor.stats(&queues).cached_wakers, 0);
    assert_eq!(executor.stats(&queues).active_tasks, 0);
    // a stale wake-up of the finished task is skipped, and the next live task found
    queues.wake_task(id, TaskPriority::High);
    executor.spawn(&mut queues, Task::new(&mut ids, "later"));
    let mut next = executor.next_task_to_poll(&mut queues).unwrap();
    assert_eq!(*next.future_mut(), "later");
    assert!(queues.is_idle());
}
