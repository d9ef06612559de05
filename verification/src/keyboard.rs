//! Keyboard input as a stream of scancodes, and the diagnostic commands that can
//! be typed at the console.
use vstd::prelude::*;
use core::task::Waker;
use pc_keyboard::{layouts, DecodedKey, HandleControl, KeyCode, KeyEvent, Keyboard, ScancodeSet1};
use crate::input::{
    clear_keyboard_waker, front_spec, init_keyboard_input, pop_keyboard_scancode, pop_spec,
    register_keyboard_waker, reset_counters_for_test, InputState, InputView,
};

verus! {

/// The reading end of the keyboard input pipeline. Making one sets up the queue,
/// so there is at most one.
pub struct ScancodeStream {
    _private: (),
}

impl ScancodeStream {
    /// Sets up the input queue and returns the stream that reads it.
    pub fn new(input: &mut InputState) -> (s: Self)
        requires
            old(input).wf(),
            old(input)@.queue is None,
        ensures
            final(input).wf(),
            final(input)@ == (InputView { queue: Some(Seq::<u8>::empty()), ..old(input)@ }),
    {
        init_keyboard_input(input);
        ScancodeStream { _private: () }
    }

    /// Polls for the next scancode: `Some` when one is queued (it is taken out);
    /// otherwise `None`, with `waker` registered to be woken by the next scancode.
    pub fn poll_next(&mut self, input: &mut InputState, waker: &Waker) -> (res: Option<u8>)
        requires
            old(input).wf(),
        ensures
            final(input).wf(),
            res == front_spec(old(input)@),
            res is Some ==> final(input)@ == pop_spec(old(input)@),
            res is None ==> final(input)@ == (InputView { waker_registered: true, ..old(input)@ }),
    {
        // fast path: a scancode is already waiting
        if let Some(scancode) = pop_keyboard_scancode(input) {
            return Some(scancode);
        }
        register_keyboard_waker(input, waker);
        // look again: a scancode may have come in before the waker was registered
        match pop_keyboard_scancode(input) {
            Some(scancode) => {
                clear_keyboard_waker(input);
                Some(scancode)
            },
            None => None,
        }
    }
}

/// A diagnostic command typed at the console.
#[derive(Clone, Copy, Debug, PartialEq, Eq, Structural)]
pub enum DebugCommand {
    /// `s`: report the tick, the executor's load and the input counters.
    ShowStats,
    /// `r`: set the input loss counters back to zero.
    ResetCounters,
    /// `h`: list the commands.
    Help,
}

/// The command a typed character stands for, if any (either case).
pub open spec fn debug_command_spec(c: char) -> Option<DebugCommand> {
    if c == 's' || c == 'S' {
        Some(DebugCommand::ShowStats)
    } else if c == 'r' || c == 'R' {
        Some(DebugCommand::ResetCounters)
    } else if c == 'h' || c == 'H' {
        Some(DebugCommand::Help)
    } else {
        None
    }
}

/// Handles a typed character that may be a diagnostic command: the command it
/// stands for, with the counter reset already done; `None` for any other
/// character, which is then shown as typed.
pub fn handle_debug_command(input: &mut InputState, command: char) -> (res: Option<DebugCommand>)
    requires
        old(input).wf(),
    ensures
        final(input).wf(),
        res == debug_command_spec(command),
        res == Some(DebugCommand::ResetCounters) ==> final(input)@ == (InputView {
            dropped: 0,
            uninitialized: 0,
            ..old(input)@
        }),
        res != Some(DebugCommand::ResetCounters) ==> final(input)@ == old(input)@,
{
    match command {
        's' | 'S' => Some(DebugCommand::ShowStats),
        'r' | 'R' => {
            reset_counters_for_test(input);
            Some(DebugCommand::ResetCounters)
        },
        'h' | 'H' => Some(DebugCommand::Help),
        _ => None,
    }
}

#[verifier::external_type_specification]
#[verifier::external_body]
pub struct ExKeyEvent(KeyEvent);

#[verifier::external_type_specification]
#[verifier::external_body]
pub struct ExKeyCode(KeyCode);

/// A US-104 keyboard decoder for scan code set 1 (`pc_keyboard::Keyboard`), which
/// tracks the key states that decoding depends on (modifiers, multi-byte codes).
/// `Keyboard` is bounded by traits of its crate, which Verus does not take as
/// bounds, so the type is held here rather than declared.
#[verifier::external_body]
pub struct KeyDecoder {
    keyboard: Keyboard<layouts::Us104Key, ScancodeSet1>,
}

/// `Keyboard::new` with scan code set 1, the US-104 layout, and Ctrl passed
/// through unchanged.
#[verifier::external_body]
fn key_decoder_new() -> KeyDecoder {
    KeyDecoder {
        keyboard: Keyboard::new(ScancodeSet1::new(), layouts::Us104Key, HandleControl::Ignore),
    }
}

/// The key event that feeding `scancode` to `decoder` completes, if any (a decoding
/// error gives none).
pub uninterp spec fn decoder_event(decoder: KeyDecoder, scancode: u8) -> Option<KeyEvent>;

/// The decoder after it is fed `scancode`.
pub uninterp spec fn decoder_after_byte(decoder: KeyDecoder, scancode: u8) -> KeyDecoder;

/// The key that `event` produces in `decoder`'s state, if any.
pub uninterp spec fn decoder_key(decoder: KeyDecoder, event: KeyEvent) -> Option<KeyInput>;

/// The decoder after it processes `event`.
pub uninterp spec fn decoder_after_event(decoder: KeyDecoder, event: KeyEvent) -> KeyDecoder;

/// `Keyboard::add_byte`: feeds one scancode; the key event it completes, if any
/// (a decoding error gives `None`). It is a function of the decoder's state and the
/// scancode (the scan code set's state machine), named by `decoder_event` and
/// `decoder_after_byte`.
#[verifier::external_body]
fn keyboard_add_byte(decoder: &mut KeyDecoder, scancode: u8) -> (res: Option<KeyEvent>)
    ensures
        res == decoder_event(*old(decoder), scancode),
        *final(decoder) == decoder_after_byte(*old(decoder), scancode),
{
    match decoder.keyboard.add_byte(scancode) {
        Ok(Some(event)) => Some(event),
        _ => None,
    }
}

/// `Keyboard::process_keyevent`: the key an event produces under the current
/// modifiers, if any. It is a function of the decoder's state and the event (the
/// layout and the modifier and lock states it tracks), named by `decoder_key` and
/// `decoder_after_event`.
#[verifier::external_body]
fn keyboard_process_keyevent(decoder: &mut KeyDecoder, event: KeyEvent) -> (res: Option<KeyInput>)
    ensures
        res == decoder_key(*old(decoder), event),
        *final(decoder) == decoder_after_event(*old(decoder), event),
{
    match decoder.keyboard.process_keyevent(event) {
        Some(DecodedKey::Unicode(c)) => Some(KeyInput::Char(c)),
        Some(DecodedKey::RawKey(code)) => Some(KeyInput::Raw(code)),
        None => None,
    }
}

impl KeyDecoder {
    /// A decoder with no key pressed.
    pub fn new() -> Self {
        key_decoder_new()
    }
}

/// A decoded key press.
#[derive(Clone, Copy, Debug, PartialEq, Eq)]
pub enum KeyInput {
    /// A key that produces a character.
    Char(char),
    /// A key without a character (function keys, arrows, ...).
    Raw(KeyCode),
}

/// What the console does with a key press.
#[derive(Clone, Copy, Debug, PartialEq, Eq)]
pub enum KeyOutput {
    /// Show the character.
    Print(char),
    /// Show the name of the key.
    PrintRaw(KeyCode),
    /// Carry out the diagnostic command (a counter reset is already done).
    Command(DebugCommand),
}

/// What the console does with `key`.
pub open spec fn key_output_spec(key: KeyInput) -> KeyOutput {
    match key {
        KeyInput::Char(c) => match debug_command_spec(c) {
            Some(cmd) => KeyOutput::Command(cmd),
            None => KeyOutput::Print(c),
        },
        KeyInput::Raw(code) => KeyOutput::PrintRaw(code),
    }
}

/// The input pipeline after the console handles `key`: only the reset command
/// changes it.
pub open spec fn key_effect_spec(v: InputView, key: KeyInput) -> InputView {
    match key {
        KeyInput::Char(c) => if debug_command_spec(c) == Some(DebugCommand::ResetCounters) {
            InputView { dropped: 0, uninitialized: 0, ..v }
        } else {
            v
        },
        KeyInput::Raw(_) => v,
    }
}

/// Handles a decoded key press: a diagnostic command is carried out, any other
/// character or key is to be shown.
pub fn key_output(input: &mut InputState, key: KeyInput) -> (out: KeyOutput)
    requires
        old(input).wf(),
    ensures
        final(input).wf(),
        out == key_output_spec(key),
        final(input)@ == key_effect_spec(old(input)@, key),
{
    match key {
        KeyInput::Char(c) => match handle_debug_command(input, c) {
            Some(cmd) => KeyOutput::Command(cmd),
            None => KeyOutput::Print(c),
        },
        KeyInput::Raw(code) => KeyOutput::PrintRaw(code),
    }
}

/// The key press that feeding `scancode` to `decoder` completes, if any.
pub open spec fn decoded_key(decoder: KeyDecoder, scancode: u8) -> Option<KeyInput> {
    match decoder_event(decoder, scancode) {
        Some(event) => decoder_key(decoder_after_byte(decoder, scancode), event),
        None => None,
    }
}

/// The decoder after it is fed `scancode`.
pub open spec fn decoder_after_scancode(decoder: KeyDecoder, scancode: u8) -> KeyDecoder {
    match decoder_event(decoder, scancode) {
        Some(event) => decoder_after_event(decoder_after_byte(decoder, scancode), event),
        None => decoder_after_byte(decoder, scancode),
    }
}

/// Decodes one scancode from the stream and handles the key press it completes,
/// if any. `None` when the scancode completes no key press; the pipeline is then
/// unchanged.
pub fn handle_scancode(decoder: &mut KeyDecoder, input: &mut InputState, scancode: u8) -> (out:
    Option<KeyOutput>)
    requires
        old(input).wf(),
    ensures
        final(input).wf(),
        *final(decoder) == decoder_after_scancode(*old(decoder), scancode),
        out == match decoded_key(*old(decoder), scancode) {
            Some(key) => Some(key_output_spec(key)),
            None => None,
        },
        final(input)@ == match decoded_key(*old(decoder), scancode) {
            Some(key) => key_effect_spec(old(input)@, key),
            None => old(input)@,
        },
{
    match keyboard_add_byte(decoder, scancode) {
        Some(event) => match keyboard_process_keyevent(decoder, event) {
            Some(key) => Some(key_output(input, key)),
            None => None,
        },
        None => None,
    }
}

} // verus!

verus! {

/// Only `s`, `r` and `h`, in either case, are commands; every other character is
/// shown as typed and leaves the input pipeline as it was, and the reset command
/// zeroes both loss counters and nothing else.
pub proof fn lemma_only_s_r_h_are_commands(c: char, v: InputView)
    ensures
        (debug_command_spec(c) == Some(DebugCommand::ShowStats)) <==> (c == 's' || c == 'S'),
        (debug_command_spec(c) == Some(DebugCommand::ResetCounters)) <==> (c == 'r' || c == 'R'),
        (debug_command_spec(c) == Some(DebugCommand::Help)) <==> (c == 'h' || c == 'H'),
        !(c == 's' || c == 'S' || c == 'r' || c == 'R' || c == 'h' || c == 'H') ==> {
            &&& debug_command_spec(c) is None
            &&& key_output_spec(KeyInput::Char(c)) == KeyOutput::Print(c)
            &&& key_effect_spec(v, KeyInput::Char(c)) == v
        },
        (c == 'r' || c == 'R') ==> {
            let after = key_effect_spec(v, KeyInput::Char(c));
            &&& after.dropped == 0
            &&& after.uninitialized == 0
            &&& after.queue == v.queue
            &&& after.policy == v.policy
            &&& after.waker_registered == v.waker_registered
        },
        (c == 's' || c == 'S' || c == 'h' || c == 'H') ==> key_effect_spec(v, KeyInput::Char(c))
            == v,
{
}

/// A key without a character is shown by name and changes nothing.
pub proof fn lemma_raw_keys_are_shown(code: KeyCode, v: InputView)
    ensures
        key_output_spec(KeyInput::Raw(code)) == KeyOutput::PrintRaw(code),
        key_effect_spec(v, KeyInput::Raw(code)) == v,
{
}

} // verus!
