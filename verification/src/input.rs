//! Input events and the input-state resource.
//!
//! The host forwards each input event between frames; systems read the
//! accumulated state during the frame.

use vstd::prelude::*;

verus! {

/// One input event, forwarded by the host outside the scheduler. Keys
/// and mouse buttons are identified by small integer codes.
#[derive(Clone, Copy, PartialEq, Eq, Structural, Debug)]
pub enum InputEvent {
    KeyDown(u8),
    KeyUp(u8),
    MouseButtonDown(u8),
    MouseButtonUp(u8),
    CursorMoved(i64, i64),
}

/// The resource holding the state of the keyboard, the mouse buttons
/// and the cursor, as of the last forwarded event.
#[derive(Clone, PartialEq, Eq, Debug)]
pub struct InputState {
    pub keys: Vec<bool>,
    pub buttons: Vec<bool>,
    pub cursor_x: i64,
    pub cursor_y: i64,
}

/// Whether the flag at `code` is set in `flags`, unset codes defaulting
/// to false.
pub open spec fn flag_spec(flags: Seq<bool>, code: u8) -> bool {
    code < flags.len() && flags[code as int]
}

/// Sets `flags[code]` to `value`, growing `flags` with false entries up
/// to `code` first.
fn set_flag(flags: &mut Vec<bool>, code: u8, value: bool)
    ensures
        flag_spec(final(flags)@, code) == value,
        forall|other: u8| other != code ==> flag_spec(final(flags)@, other) == flag_spec(
            old(flags)@,
            other,
        ),
{
    while flags.len() <= code as usize
        invariant
            forall|j: int| 0 <= j < flags@.len() && j < old(flags)@.len() ==> flags@[j] == old(
                flags,
            )@[j],
            forall|j: int| old(flags)@.len() <= j < flags@.len() ==> !flags@[j],
            flags@.len() >= old(flags)@.len(),
        decreases code + 1 - flags.len(),
    {
        flags.push(false);
    }
    flags.set(code as usize, value);
}

impl InputState {
    /// Fresh input state: no key or button down, the cursor at the
    /// origin.
    pub fn new() -> (r: InputState)
        ensures
            forall|code: u8| !flag_spec(r.keys@, code),
            forall|code: u8| !flag_spec(r.buttons@, code),
            r.cursor_x == 0,
            r.cursor_y == 0,
    {
        InputState { keys: Vec::new(), buttons: Vec::new(), cursor_x: 0, cursor_y: 0 }
    }

    /// Whether the key at `code` is currently held down.
    pub fn is_key_down(&self, code: u8) -> (r: bool)
        ensures
            r == flag_spec(self.keys@, code),
    {
        (code as usize) < self.keys.len() && self.keys[code as usize]
    }

    /// Whether the mouse button at `code` is currently held down.
    pub fn is_button_down(&self, code: u8) -> (r: bool)
        ensures
            r == flag_spec(self.buttons@, code),
    {
        (code as usize) < self.buttons.len() && self.buttons[code as usize]
    }

    /// Folds one event into the state: a key or button event updates
    /// exactly that key or button, a cursor move updates the cursor.
    pub fn on_input(&mut self, event: InputEvent)
        ensures
            input_applied(*old(self), event, *final(self)),
    {
        match event {
            InputEvent::KeyDown(code) => set_flag(&mut self.keys, code, true),
            InputEvent::KeyUp(code) => set_flag(&mut self.keys, code, false),
            InputEvent::MouseButtonDown(code) => set_flag(&mut self.buttons, code, true),
            InputEvent::MouseButtonUp(code) => set_flag(&mut self.buttons, code, false),
            InputEvent::CursorMoved(x, y) => {
                self.cursor_x = x;
                self.cursor_y = y;
            },
        }
    }
}

/// How one forwarded event turns input state `s1` into `s2`.
pub open spec fn input_applied(s1: InputState, event: InputEvent, s2: InputState) -> bool {
    match event {
        InputEvent::KeyDown(code) => {
            &&& flag_spec(s2.keys@, code)
            &&& forall|o: u8| o != code ==> flag_spec(s2.keys@, o) == flag_spec(s1.keys@, o)
            &&& s2.buttons@ == s1.buttons@
            &&& s2.cursor_x == s1.cursor_x
            &&& s2.cursor_y == s1.cursor_y
        },
        InputEvent::KeyUp(code) => {
            &&& !flag_spec(s2.keys@, code)
            &&& forall|o: u8| o != code ==> flag_spec(s2.keys@, o) == flag_spec(s1.keys@, o)
            &&& s2.buttons@ == s1.buttons@
            &&& s2.cursor_x == s1.cursor_x
            &&& s2.cursor_y == s1.cursor_y
        },
        InputEvent::MouseButtonDown(code) => {
            &&& flag_spec(s2.buttons@, code)
            &&& forall|o: u8| o != code ==> flag_spec(s2.buttons@, o) == flag_spec(s1.buttons@, o)
            &&& s2.keys@ == s1.keys@
            &&& s2.cursor_x == s1.cursor_x
            &&& s2.cursor_y == s1.cursor_y
        },
        InputEvent::MouseButtonUp(code) => {
            &&& !flag_spec(s2.buttons@, code)
            &&& forall|o: u8| o != code ==> flag_spec(s2.buttons@, o) == flag_spec(s1.buttons@, o)
            &&& s2.keys@ == s1.keys@
            &&& s2.cursor_x == s1.cursor_x
            &&& s2.cursor_y == s1.cursor_y
        },
        InputEvent::CursorMoved(x, y) => {
            &&& s2.cursor_x == x
            &&& s2.cursor_y == y
            &&& s2.keys@ == s1.keys@
            &&& s2.buttons@ == s1.buttons@
        },
    }
}

impl Default for InputState {
    /// Fresh input state.
    fn default() -> (r: Self)
        ensures
            forall|code: u8| !flag_spec(r.keys@, code),
            forall|code: u8| !flag_spec(r.buttons@, code),
            r.cursor_x == 0,
            r.cursor_y == 0,
    {
        InputState::new()
    }
}

} // verus!
