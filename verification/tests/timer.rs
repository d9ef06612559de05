use os_by_rust::timer::{current_tick, sleep_ticks, tick, TimerState};

fn tick_and_wake(timer: &mut TimerState) -> usize {
    let due = tick(timer);
    let n = due.len();
    for entry in due {
        entry.waker.wake();
    }
    n
}
use std::sync::atomic::{AtomicUsize, Ordering};
use std::sync::Arc;
use std::task::{Wake, Waker};

struct CountingWake(AtomicUsize);

impl Wake for CountingWake {
    fn wake(self: Arc<Self>) {
        self.0.fetch_add(1, Ordering::SeqCst);
    }
}

fn counting_waker() -> (Arc<CountingWake>, Waker) {
    let c = Arc::new(CountingWake(AtomicUsize::new(0)));
    (c.clone(), Waker::from(c))
}

#[test]
fn sleep_ticks_wakes_after_target_tick() {
    let mut timer = TimerState::new();
    let sleep = sleep_ticks(&timer, 2);
    let (_count, waker) = counting_waker();
    assert!(!sleep.poll(&mut timer, &waker));
    tick_and_wake(&mut timer);
    assert!(!sleep.poll(&mut timer, &waker));
    tick_and_wake(&mut timer);
    assert!(sleep.poll(&mut timer, &waker));
}

#[test]
fn zero_tick_sleep_waits_one_tick() {
    let mut timer = TimerState::new();
    let sleep = sleep_ticks(&timer, 0);
    let (_count, waker) = counting_waker();
    assert!(!sleep.poll(&mut timer, &waker));
    tick_and_wake(&mut timer);
    assert_eq!(current_tick(&timer), 1);
    assert!(sleep.poll(&mut timer, &waker));
}

#[test]
fn tick_wakes_only_due_sleepers() {
    let mut timer = TimerState::new();
    let (early_count, early) = counting_waker();
    let (late_count, late) = counting_waker();
    assert!(!sleep_ticks(&timer, 1).poll(&mut timer, &early));
    assert!(!sleep_ticks(&timer, 3).poll(&mut timer, &late));
    tick_and_wake(&mut timer);
    assert_eq!(early_count.0.load(Ordering::SeqCst), 1);
    assert_eq!(late_count.0.load(Ordering::SeqCst), 0);
    tick_and_wake(&mut timer);
    assert_eq!(late_count.0.load(Ordering::SeqCst), 0);
    tick_and_wake(&mut timer);
    assert_eq!(late_count.0.load(Ordering::SeqCst), 1);
    tick_and_wake(&mut timer);
    assert_eq!(early_count.0.load(Ordering::SeqCst), 1);
    assert_eq!(late_count.0.load(Ordering::SeqCst), 1);
}

#[test]
fn repolling_same_task_replaces_its_entry() {
    let mut timer = TimerState::new();
    let (count, waker) = counting_waker();
    assert!(!sleep_ticks(&timer, 1).poll(&mut timer, &waker));
    // the same task now sleeps longer: its entry is moved, not duplicated
    assert!(!sleep_ticks(&timer, 2).poll(&mut timer, &waker));
    tick_and_wake(&mut timer);
    assert_eq!(count.0.load(Ordering::SeqCst), 0);
    tick_and_wake(&mut timer);
    assert_eq!(count.0.load(Ordering::SeqCst), 1);
}

#[test]
fn sleep_deadline_saturates() {
    let timer = TimerState::new();
    let sleep = sleep_ticks(&timer, u64::MAX);
    let mut timer2 = TimerState::new();
    let (_c, waker) = counting_waker();
    assert!(!sleep.poll(&mut timer2, &waker));
}

#[test]
fn poll_with_replaces_first_entry_of_same_task() {
    let mut timer = TimerState::new();
    let (a_count, a) = counting_waker();
    let (b_count, b) = counting_waker();
    let (c_count, c) = counting_waker();
    assert!(!sleep_ticks(&timer, 5).poll(&mut timer, &a));
    assert!(!sleep_ticks(&timer, 5).poll(&mut timer, &b));
    // entry 1 belongs to the polling task, so it takes the new deadline
    assert!(!sleep_ticks(&timer, 1).poll_with(&mut timer, &vec![false, true], c.clone()));
    assert_eq!(tick_and_wake(&mut timer), 1);
    assert_eq!(c_count.0.load(Ordering::SeqCst), 1);
    assert_eq!(b_count.0.load(Ordering::SeqCst), 0);
    // no entry belongs to the polling task, so one goes at the end
    assert!(!sleep_ticks(&timer, 1).poll_with(&mut timer, &vec![false], c));
    assert_eq!(tick_and_wake(&mut timer), 1);
    assert_eq!(c_count.0.load(Ordering::SeqCst), 2);
    assert_eq!(a_count.0.load(Ordering::SeqCst), 0);
}

#[test]
fn tick_returns_exactly_the_due_sleepers() {
    let mut timer = TimerState::new();
    let (_a_count, a) = counting_waker();
    let (_b_count, b) = counting_waker();
    assert!(!sleep_ticks(&timer, 1).poll(&mut timer, &a));
    assert!(!sleep_ticks(&timer, 2).poll(&mut timer, &b));
    let due = tick(&mut timer);
    assert_eq!(due.len(), 1);
    assert_eq!(due[0].wake_tick, 1);
    let due = tick(&mut timer);
    assert_eq!(due.len(), 1);
    assert_eq!(due[0].wake_tick, 2);
    assert!(tick(&mut timer).is_empty());
}
