use os_by_rust::input::{
    clear_keyboard_waker, dropped_scancode_count, init_keyboard_input, pop_keyboard_scancode,
    push_keyboard_scancode, register_keyboard_waker, reset_counters_for_test,
    uninitialized_scancode_count, InputState, OverflowPolicy,
};
use std::sync::atomic::{AtomicUsize, Ordering};
use std::sync::Arc;
use std::task::{Wake, Waker};

struct CountingWake(AtomicUsize);

impl Wake for CountingWake {
    fn wake(self: Arc<Self>) {
        self.0.fetch_add(1, Ordering::SeqCst);
    }
}

fn counting_waker() -> (Arc<CountingWake>, Waker) {
    let c = Arc::new(CountingWake(AtomicUsize::new(0)));
    (c.clone(), Waker::from(c))
}

fn drain_scancode_queue(input: &mut InputState) {
    while pop_keyboard_scancode(input).is_some() {}
}

#[test]
fn input_queue_lifecycle_and_counters() {
    let mut input = InputState::new(OverflowPolicy::DropNew);
    reset_counters_for_test(&mut input);

    push_keyboard_scancode(&mut input, 0x1e);
    assert_eq!(uninitialized_scancode_count(&input), 1);

    init_keyboard_input(&mut input);
    push_keyboard_scancode(&mut input, 0x30);
    assert_eq!(pop_keyboard_scancode(&mut input), Some(0x30));
    assert_eq!(dropped_scancode_count(&input), 0);
}

#[test]
fn input_drop_new_policy_keeps_oldest_queue_entries() {
    let mut input = InputState::new(OverflowPolicy::DropNew);
    init_keyboard_input(&mut input);
    reset_counters_for_test(&mut input);
    drain_scancode_queue(&mut input);

    for value in 0u8..120u8 {
        push_keyboard_scancode(&mut input, value);
    }

    assert_eq!(dropped_scancode_count(&input), 20);
    assert_eq!(pop_keyboard_scancode(&mut input), Some(0));
}

#[test]
fn input_drop_old_policy_keeps_latest_queue_entries() {
    let mut input = InputState::new(OverflowPolicy::DropOld);
    init_keyboard_input(&mut input);
    reset_counters_for_test(&mut input);
    drain_scancode_queue(&mut input);

    for value in 0u8..120u8 {
        push_keyboard_scancode(&mut input, value);
    }

    assert_eq!(dropped_scancode_count(&input), 0);
    assert_eq!(pop_keyboard_scancode(&mut input), Some(20));
}

#[test]
fn drop_new_queue_holds_first_hundred_in_order() {
    let mut input = InputState::new(OverflowPolicy::DropNew);
    init_keyboard_input(&mut input);
    for value in 0u8..150u8 {
        push_keyboard_scancode(&mut input, value);
    }
    for expected in 0u8..100u8 {
        assert_eq!(pop_keyboard_scancode(&mut input), Some(expected));
    }
    assert_eq!(pop_keyboard_scancode(&mut input), None);
    assert_eq!(dropped_scancode_count(&input), 50);
}

#[test]
fn drop_old_queue_holds_last_hundred_in_order() {
    let mut input = InputState::new(OverflowPolicy::DropOld);
    init_keyboard_input(&mut input);
    for value in 0u8..150u8 {
        push_keyboard_scancode(&mut input, value);
    }
    for expected in 50u8..150u8 {
        assert_eq!(pop_keyboard_scancode(&mut input), Some(expected));
    }
    assert_eq!(pop_keyboard_scancode(&mut input), None);
}

#[test]
fn pop_before_init_is_none() {
    let mut input = InputState::new(OverflowPolicy::DropNew);
    assert_eq!(pop_keyboard_scancode(&mut input), None);
    push_keyboard_scancode(&mut input, 7);
    push_keyboard_scancode(&mut input, 8);
    assert_eq!(uninitialized_scancode_count(&input), 2);
    assert_eq!(pop_keyboard_scancode(&mut input), None);
}

#[test]
fn queued_scancode_wakes_registered_reader_once() {
    let (count, waker) = counting_waker();
    let mut input = InputState::new(OverflowPolicy::DropNew);
    init_keyboard_input(&mut input);
    register_keyboard_waker(&mut input, &waker);
    let to_wake = push_keyboard_scancode(&mut input, 1).expect("the reader is handed out");
    assert_eq!(count.0.load(Ordering::SeqCst), 0);
    to_wake.wake();
    assert_eq!(count.0.load(Ordering::SeqCst), 1);
    // the waker was used up: a second scancode hands out nothing
    assert!(push_keyboard_scancode(&mut input, 2).is_none());
}

#[test]
fn cleared_waker_is_not_woken() {
    let (count, waker) = counting_waker();
    let mut input = InputState::new(OverflowPolicy::DropNew);
    init_keyboard_input(&mut input);
    register_keyboard_waker(&mut input, &waker);
    let removed = clear_keyboard_waker(&mut input);
    assert!(removed.is_some());
    assert!(push_keyboard_scancode(&mut input, 1).is_none());
    drop(removed);
    assert_eq!(count.0.load(Ordering::SeqCst), 0);
    assert!(clear_keyboard_waker(&mut input).is_none());
}

#[test]
fn reset_counters_zeroes_both() {
    let mut input = InputState::new(OverflowPolicy::DropNew);
    push_keyboard_scancode(&mut input, 1);
    init_keyboard_input(&mut input);
    for value in 0u8..101u8 {
        push_keyboard_scancode(&mut input, value);
    }
    assert_eq!(uninitialized_scancode_count(&input), 1);
    assert_eq!(dropped_scancode_count(&input), 1);
    reset_counters_for_test(&mut input);
    assert_eq!(uninitialized_scancode_count(&input), 0);
    assert_eq!(dropped_scancode_count(&input), 0);
    assert_eq!(pop_keyboard_scancode(&mut input), Some(0));
}

#[test]
fn full_queue_hands_out_reader_only_under_drop_old() {
    let (_count, waker) = counting_waker();
    let mut new_policy = InputState::new(OverflowPolicy::DropNew);
    let mut old_policy = InputState::new(OverflowPolicy::DropOld);
    init_keyboard_input(&mut new_policy);
    init_keyboard_input(&mut old_policy);
    for value in 0u8..100u8 {
        push_keyboard_scancode(&mut new_policy, value);
        push_keyboard_scancode(&mut old_policy, value);
    }
    register_keyboard_waker(&mut new_policy, &waker);
    register_keyboard_waker(&mut old_policy, &waker);
    assert!(push_keyboard_scancode(&mut new_policy, 200).is_none());
    assert!(push_keyboard_scancode(&mut old_policy, 200).is_some());
}
