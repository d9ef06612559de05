use os_by_rust::input::{
    dropped_scancode_count, pop_keyboard_scancode, push_keyboard_scancode, InputState,
    OverflowPolicy,
};
use os_by_rust::keyboard::{
    handle_debug_command, handle_scancode, DebugCommand, KeyDecoder, KeyOutput, ScancodeStream,
};
use pc_keyboard::KeyCode;
use std::sync::atomic::{AtomicUsize, Ordering};
use std::sync::Arc;
use std::task::{Wake, Waker};

struct CountingWake(AtomicUsize);

impl Wake for CountingWake {
    fn wake(self: Arc<Self>) {
        self.0.fetch_add(1, Ordering::SeqCst);
    }
}

#[test]
fn stream_yields_queued_scancodes_then_waits() {
    let count = Arc::new(CountingWake(AtomicUsize::new(0)));
    let waker = Waker::from(count.clone());
    let mut input = InputState::new(OverflowPolicy::DropNew);
    let mut stream = ScancodeStream::new(&mut input);
    push_keyboard_scancode(&mut input, 0x1e);
    push_keyboard_scancode(&mut input, 0x9e);
    assert_eq!(stream.poll_next(&mut input, &waker), Some(0x1e));
    assert_eq!(stream.poll_next(&mut input, &waker), Some(0x9e));
    assert_eq!(stream.poll_next(&mut input, &waker), None);
    assert_eq!(count.0.load(Ordering::SeqCst), 0);
    let to_wake = push_keyboard_scancode(&mut input, 0x20).expect("the pending reader is handed out");
    to_wake.wake();
    assert_eq!(count.0.load(Ordering::SeqCst), 1);
    assert_eq!(stream.poll_next(&mut input, &waker), Some(0x20));
}

#[test]
fn debug_commands_are_recognised() {
    let mut input = InputState::new(OverflowPolicy::DropNew);
    assert_eq!(handle_debug_command(&mut input, 's'), Some(DebugCommand::ShowStats));
    assert_eq!(handle_debug_command(&mut input, 'S'), Some(DebugCommand::ShowStats));
    assert_eq!(handle_debug_command(&mut input, 'h'), Some(DebugCommand::Help));
    assert_eq!(handle_debug_command(&mut input, 'H'), Some(DebugCommand::Help));
    assert_eq!(handle_debug_command(&mut input, 'a'), None);
    assert_eq!(handle_debug_command(&mut input, '1'), None);
}

#[test]
fn reset_command_clears_input_counters() {
    let mut input = InputState::new(OverflowPolicy::DropNew);
    let _stream = ScancodeStream::new(&mut input);
    for value in 0u8..105u8 {
        push_keyboard_scancode(&mut input, value);
    }
    assert_eq!(dropped_scancode_count(&input), 5);
    assert_eq!(handle_debug_command(&mut input, 'R'), Some(DebugCommand::ResetCounters));
    assert_eq!(dropped_scancode_count(&input), 0);
    assert_eq!(pop_keyboard_scancode(&mut input), Some(0));
}

#[test]
fn scancodes_decode_to_console_output() {
    let mut input = InputState::new(OverflowPolicy::DropNew);
    let mut decoder = KeyDecoder::new();
    // 'a' pressed, then released
    assert_eq!(handle_scancode(&mut decoder, &mut input, 0x1e), Some(KeyOutput::Print('a')));
    assert_eq!(handle_scancode(&mut decoder, &mut input, 0x9e), None);
    // 's' is the statistics command
    assert_eq!(
        handle_scancode(&mut decoder, &mut input, 0x1f),
        Some(KeyOutput::Command(DebugCommand::ShowStats))
    );
    // F1 has no character
    assert_eq!(
        handle_scancode(&mut decoder, &mut input, 0x3b),
        Some(KeyOutput::PrintRaw(KeyCode::F1))
    );
}

#[test]
fn reset_key_clears_counters() {
    let mut input = InputState::new(OverflowPolicy::DropNew);
    push_keyboard_scancode(&mut input, 1);
    let mut decoder = KeyDecoder::new();
    assert_eq!(
        handle_scancode(&mut decoder, &mut input, 0x13),
        Some(KeyOutput::Command(DebugCommand::ResetCounters))
    );
    assert_eq!(os_by_rust::input::uninitialized_scancode_count(&input), 0);
}
