//! What injection knows of the application's input objects.
use vstd::prelude::*;

verus! {

/// What injection knows of the application's input objects and focus.
#[derive(Clone, Copy, Debug)]
pub struct InputState {
    /// The application's `wl_pointer`.
    pub pointer: Option<u64>,
    /// The application's `wl_keyboard`.
    pub keyboard: Option<u64>,
    /// The application's `zwp_text_input_v3`.
    pub text_input: Option<u64>,
    pub text_input_pending_enabled: bool,
    pub text_input_enabled: bool,
    pub text_input_commit_serial: u32,
    /// Surface that keyboard input goes to.
    pub focused_surface: Option<u64>,
    /// Serial of the next synthetic event.
    pub next_serial: u32,
    /// Surface the injected pointer is over.
    pub pointer_focus: Option<u64>,
    /// Surface the injected keyboard is focused on.
    pub keyboard_focus: Option<u64>,
}

/// An optional handle, cleared where it is the given one.
pub open spec fn cleared(slot: Option<u64>, id: u64) -> Option<u64> {
    if slot == Some(id) {
        None
    } else {
        slot
    }
}

fn clear(slot: Option<u64>, id: u64) -> (rest: Option<u64>)
    ensures
        rest == cleared(slot, id),
{
    if slot == Some(id) {
        None
    } else {
        slot
    }
}

impl InputState {
    /// Nothing is known yet, and serials start at one.
    pub open spec fn initial() -> Self {
        InputState {
            pointer: None,
            keyboard: None,
            text_input: None,
            text_input_pending_enabled: false,
            text_input_enabled: false,
            text_input_commit_serial: 0,
            focused_surface: None,
            next_serial: 1,
            pointer_focus: None,
            keyboard_focus: None,
        }
    }

    /// The state once an object is gone: it has no role any more, and a lost
    /// text input takes its own state along.
    pub open spec fn without(self, id: u64) -> Self {
        let lost_text_input = self.text_input == Some(id);
        InputState {
            pointer: cleared(self.pointer, id),
            keyboard: cleared(self.keyboard, id),
            text_input: cleared(self.text_input, id),
            text_input_pending_enabled: self.text_input_pending_enabled && !lost_text_input,
            text_input_enabled: self.text_input_enabled && !lost_text_input,
            text_input_commit_serial: if lost_text_input {
                0
            } else {
                self.text_input_commit_serial
            },
            focused_surface: cleared(self.focused_surface, id),
            next_serial: self.next_serial,
            pointer_focus: cleared(self.pointer_focus, id),
            keyboard_focus: cleared(self.keyboard_focus, id),
        }
    }

    /// The state of a connection that was just opened.
    pub fn new() -> (state: Self)
        ensures
            state == Self::initial(),
    {
        InputState {
            pointer: None,
            keyboard: None,
            text_input: None,
            text_input_pending_enabled: false,
            text_input_enabled: false,
            text_input_commit_serial: 0,
            focused_surface: None,
            next_serial: 1,
            pointer_focus: None,
            keyboard_focus: None,
        }
    }

    /// Forget an object that is gone.
    pub fn forget(&mut self, id: u64)
        ensures
            *final(self) == old(self).without(id),
    {
        let lost_text_input: bool = self.text_input == Some(id);
        if lost_text_input {
            self.text_input_pending_enabled = false;
            self.text_input_enabled = false;
            self.text_input_commit_serial = 0;
        }
        self.pointer = clear(self.pointer, id);
        self.keyboard = clear(self.keyboard, id);
        self.text_input = clear(self.text_input, id);
        self.focused_surface = clear(self.focused_surface, id);
        self.pointer_focus = clear(self.pointer_focus, id);
        self.keyboard_focus = clear(self.keyboard_focus, id);
    }
}

} // verus!
