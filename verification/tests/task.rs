use os_by_rust::task::{Task, TaskId, TaskIdCounter, TaskPriority};

#[test]
fn task_ids_are_unique_and_increasing() {
    let mut ids = TaskIdCounter::new();
    let a = TaskId::new(&mut ids);
    let b = TaskId::new(&mut ids);
    let c = TaskId::new(&mut ids);
    assert_eq!(a.as_raw(), 0);
    assert_eq!(b.as_raw(), 1);
    assert_eq!(c.as_raw(), 2);
    assert!(a < b && b < c);
}

#[test]
fn new_task_has_normal_priority() {
    let mut ids = TaskIdCounter::new();
    let t = Task::new(&mut ids, 5u8);
    assert_eq!(t.priority, TaskPriority::Normal);
    assert_eq!(t.id, TaskId::from_raw(0));
    let h = Task::new_with_priority(&mut ids, 6u8, TaskPriority::High);
    assert_eq!(h.priority(), TaskPriority::High);
    assert_eq!(h.id(), TaskId::from_raw(1));
}

#[test]
fn future_is_reachable_for_polling() {
    let mut ids = TaskIdCounter::new();
    let mut t = Task::new(&mut ids, 10u32);
    *t.future_mut() += 1;
    assert_eq!(*t.future_mut(), 11);
}
