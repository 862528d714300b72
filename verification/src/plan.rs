//! Plans of synthetic input: the events to send, the pauses between them and
//! the focus changes to record, in order.
use crate::input::InputState;
use vstd::prelude::*;

verus! {

/// `wl_pointer` event opcodes.
pub const PTR_ENTER: u16 = 0;

pub const PTR_LEAVE: u16 = 1;

pub const PTR_MOTION: u16 = 2;

pub const PTR_BUTTON: u16 = 3;

pub const PTR_AXIS: u16 = 4;

pub const PTR_FRAME: u16 = 5;

pub const PTR_AXIS_DISCRETE: u16 = 8;

/// `wl_keyboard` event opcodes.
pub const KBD_ENTER: u16 = 1;

pub const KBD_LEAVE: u16 = 2;

pub const KBD_KEY: u16 = 3;

pub const KBD_MODIFIERS: u16 = 4;

/// `zwp_text_input_v3` event opcodes.
pub const TEXT_COMMIT_STRING: u16 = 3;

pub const TEXT_DONE: u16 = 5;

/// Linux input-event code of the primary button.
pub const BTN_LEFT: u32 = 0x110;

/// Key and button states.
pub const KEY_RELEASED: u32 = 0;

pub const KEY_PRESSED: u32 = 1;

/// One argument of a synthetic event, behind its serial.
#[derive(Clone, Copy, Debug, PartialEq, Eq, Structural)]
pub enum EventArg {
    /// The time at which the event is sent.
    Now,
    /// The time that was noted last.
    Noted,
    Uint(u32),
    Int(i32),
    Fixed(i32),
    Object(u64),
    /// An array without elements.
    NoKeys,
}

/// One step of a plan.
pub enum Step {
    /// Send an event; where `serial` is set, a fresh serial comes first.
    Send { target: u64, opcode: u16, serial: bool, args: Vec<EventArg> },
    /// Send an event whose only argument is a text.
    SendText { target: u64, opcode: u16, text: String },
    /// Wait.
    Sleep { millis: u64 },
    /// Note the time.
    NoteTime,
    /// The pointer is over this surface now.
    PointerOn(u64),
    /// The keyboard is focused on this surface now.
    KeyboardOn(u64),
    /// Keyboard input goes to this surface from now on.
    SurfaceFocused(u64),
    /// The plan cannot go on.
    Fail(String),
}

/// What a step says.
pub enum StepView {
    Send { target: u64, opcode: u16, serial: bool, args: Seq<EventArg> },
    SendText { target: u64, opcode: u16, text: Seq<char> },
    Sleep { millis: u64 },
    NoteTime,
    PointerOn(u64),
    KeyboardOn(u64),
    SurfaceFocused(u64),
    Fail(Seq<char>),
}

impl View for Step {
    type V = StepView;

    open spec fn view(&self) -> StepView {
        match *self {
            Step::Send { target, opcode, serial, args } => StepView::Send {
                target,
                opcode,
                serial,
                args: args@,
            },
            Step::SendText { target, opcode, text } => StepView::SendText {
                target,
                opcode,
                text: text@,
            },
            Step::Sleep { millis } => StepView::Sleep { millis },
            Step::NoteTime => StepView::NoteTime,
            Step::PointerOn(surface) => StepView::PointerOn(surface),
            Step::KeyboardOn(surface) => StepView::KeyboardOn(surface),
            Step::SurfaceFocused(surface) => StepView::SurfaceFocused(surface),
            Step::Fail(message) => StepView::Fail(message@),
        }
    }
}

/// What a list of steps says.
pub open spec fn step_views(steps: Seq<Step>) -> Seq<StepView> {
    Seq::new(steps.len(), |i: int| steps[i]@)
}

/// The input state once a step was performed; serials are counted elsewhere.
pub open spec fn focus_after(input: InputState, step: StepView) -> InputState {
    match step {
        StepView::PointerOn(surface) => InputState { pointer_focus: Some(surface), ..input },
        StepView::KeyboardOn(surface) => InputState { keyboard_focus: Some(surface), ..input },
        StepView::SurfaceFocused(surface) => InputState { focused_surface: Some(surface), ..input },
        _ => input,
    }
}

/// A plan in the making: the steps so far, the input state that they lead to,
/// the surface that input goes to, and whether the plan has come to an end.
pub struct Planner {
    pub input: InputState,
    pub surface: Option<u64>,
    pub steps: Vec<Step>,
    pub failed: bool,
}

/// What a plan in the making amounts to.
#[verifier::ext_equal]
pub struct PlannerView {
    pub input: InputState,
    pub surface: Option<u64>,
    pub steps: Seq<StepView>,
    pub failed: bool,
}

impl View for Planner {
    type V = PlannerView;

    open spec fn view(&self) -> PlannerView {
        PlannerView {
            input: self.input,
            surface: self.surface,
            steps: step_views(self.steps@),
            failed: self.failed,
        }
    }
}

impl PlannerView {
    /// A plan without steps.
    pub open spec fn start(input: InputState, surface: Option<u64>) -> Self {
        PlannerView { input, surface, steps: Seq::empty(), failed: false }
    }

    /// One more step, unless the plan has ended; a failure ends it.
    pub open spec fn step(self, step: StepView) -> Self {
        if self.failed {
            self
        } else {
            PlannerView {
                input: focus_after(self.input, step),
                surface: self.surface,
                steps: self.steps.push(step),
                failed: step is Fail,
            }
        }
    }

    /// Send an event without a serial.
    pub open spec fn send(self, target: u64, opcode: u16, args: Seq<EventArg>) -> Self {
        self.step(StepView::Send { target, opcode, serial: false, args })
    }

    /// Send an event with a serial in front.
    pub open spec fn send_serial(self, target: u64, opcode: u16, args: Seq<EventArg>) -> Self {
        self.step(StepView::Send { target, opcode, serial: true, args })
    }

    /// End a group of pointer events.
    pub open spec fn frame(self, pointer: u64) -> Self {
        self.send(pointer, PTR_FRAME, Seq::empty())
    }

    /// Wait.
    pub open spec fn sleep(self, millis: u64) -> Self {
        self.step(StepView::Sleep { millis })
    }

    /// End the plan with an error.
    pub open spec fn fail(self, message: Seq<char>) -> Self {
        self.step(StepView::Fail(message))
    }

    /// Leave the surface that the pointer is over, if any.
    pub open spec fn pointer_left(self, pointer: u64) -> Self {
        match self.input.pointer_focus {
            Some(previous) => self.send_serial(
                pointer,
                PTR_LEAVE,
                seq![EventArg::Object(previous)],
            ).frame(pointer),
            None => self,
        }
    }

    /// Bring the pointer over a surface, unless it is there already.
    pub open spec fn pointer_on(self, pointer: u64, surface: u64, x: i32, y: i32) -> Self {
        if self.input.pointer_focus == Some(surface) {
            self
        } else {
            self.pointer_left(pointer).send_serial(
                pointer,
                PTR_ENTER,
                seq![EventArg::Object(surface), EventArg::Fixed(x), EventArg::Fixed(y)],
            ).frame(pointer).step(StepView::PointerOn(surface))
        }
    }

    /// Move the pointer.
    pub open spec fn motion(self, pointer: u64, x: i32, y: i32) -> Self {
        self.send(
            pointer,
            PTR_MOTION,
            seq![EventArg::Now, EventArg::Fixed(x), EventArg::Fixed(y)],
        )
    }

    /// Press or release a button.
    pub open spec fn button(self, pointer: u64, button: u32, state: u32) -> Self {
        self.send_serial(
            pointer,
            PTR_BUTTON,
            seq![EventArg::Now, EventArg::Uint(button), EventArg::Uint(state)],
        ).frame(pointer)
    }

    /// Leave the surface that the keyboard is focused on, if any.
    pub open spec fn keyboard_left(self, keyboard: u64) -> Self {
        match self.input.keyboard_focus {
            Some(previous) => self.send_serial(
                keyboard,
                KBD_LEAVE,
                seq![EventArg::Object(previous)],
            ),
            None => self,
        }
    }

    /// Focus the keyboard on a surface, unless it is there already.
    pub open spec fn keyboard_on(self, keyboard: u64, surface: u64) -> Self {
        if self.input.keyboard_focus == Some(surface) {
            self
        } else {
            self.keyboard_left(keyboard).send_serial(
                keyboard,
                KBD_ENTER,
                seq![EventArg::Object(surface), EventArg::NoKeys],
            ).step(StepView::KeyboardOn(surface))
        }
    }

    /// Press or release a key. The layout counts keycodes from 8, the event
    /// from 0.
    pub open spec fn key(self, keycode: u32, pressed: bool) -> Self {
        match (self.input.keyboard, self.surface) {
            (None, _) => self.fail("the app has not created a wl_keyboard yet"@),
            (Some(_), None) => self.fail("the app has no surface to receive keyboard input"@),
            (Some(keyboard), Some(surface)) => self.keyboard_on(keyboard, surface).send_serial(
                keyboard,
                KBD_KEY,
                seq![
                    EventArg::Now,
                    EventArg::Uint(evdev_keycode(keycode)),
                    EventArg::Uint(if pressed {
                        KEY_PRESSED
                    } else {
                        KEY_RELEASED
                    }),
                ],
            ),
        }
    }

    /// Announce the modifiers that are held.
    pub open spec fn modifiers(self, depressed: u32) -> Self {
        match self.input.keyboard {
            None => self.fail("the app has not created a wl_keyboard yet"@),
            Some(keyboard) => self.send_serial(
                keyboard,
                KBD_MODIFIERS,
                seq![
                    EventArg::Uint(depressed),
                    EventArg::Uint(0),
                    EventArg::Uint(0),
                    EventArg::Uint(0),
                ],
            ),
        }
    }
}

/// A layout keycode as the kernel counts it.
pub open spec fn evdev_keycode(keycode: u32) -> u32 {
    if keycode < 8 {
        0
    } else {
        (keycode - 8) as u32
    }
}

impl Planner {
    /// Start a plan.
    pub fn start(input: InputState, surface: Option<u64>) -> (planner: Self)
        ensures
            planner@ == PlannerView::start(input, surface),
    {
        let planner = Planner { input, surface, steps: Vec::new(), failed: false };
        assert(planner@ =~= PlannerView::start(input, surface));
        planner
    }

    /// Add a step, unless the plan has ended.
    pub fn step(&mut self, step: Step)
        ensures
            final(self)@ == old(self)@.step(step@),
    {
        if self.failed {
            return;
        }
        match &step {
            Step::PointerOn(surface) => {
                self.input.pointer_focus = Some(*surface);
            },
            Step::KeyboardOn(surface) => {
                self.input.keyboard_focus = Some(*surface);
            },
            Step::SurfaceFocused(surface) => {
                self.input.focused_surface = Some(*surface);
            },
            Step::Fail(_) => {
                self.failed = true;
            },
            _ => {},
        }
        let ghost before = self.steps@;
        let ghost view = step@;
        self.steps.push(step);
        assert(step_views(self.steps@) =~= step_views(before).push(view));
    }

    /// Send an event without a serial.
    pub fn send(&mut self, target: u64, opcode: u16, args: Vec<EventArg>)
        ensures
            final(self)@ == old(self)@.send(target, opcode, args@),
    {
        self.step(Step::Send { target, opcode, serial: false, args });
    }

    /// Send an event with a serial in front.
    pub fn send_serial(&mut self, target: u64, opcode: u16, args: Vec<EventArg>)
        ensures
            final(self)@ == old(self)@.send_serial(target, opcode, args@),
    {
        self.step(Step::Send { target, opcode, serial: true, args });
    }

    /// End a group of pointer events.
    pub fn frame(&mut self, pointer: u64)
        ensures
            final(self)@ == old(self)@.frame(pointer),
    {
        self.send(pointer, PTR_FRAME, Vec::new());
    }

    /// Wait.
    pub fn sleep(&mut self, millis: u64)
        ensures
            final(self)@ == old(self)@.sleep(millis),
    {
        self.step(Step::Sleep { millis });
    }

    /// End the plan with an error.
    pub fn fail(&mut self, message: String)
        ensures
            final(self)@ == old(self)@.fail(message@),
    {
        self.step(Step::Fail(message));
    }

    /// Bring the pointer over a surface, unless it is there already.
    pub fn ensure_pointer_focus(&mut self, pointer: u64, surface: u64, x: i32, y: i32)
        ensures
            final(self)@ == old(self)@.pointer_on(pointer, surface, x, y),
    {
        if self.input.pointer_focus == Some(surface) {
            return;
        }
        match self.input.pointer_focus {
            Some(previous) => {
                let args: Vec<EventArg> = vec![EventArg::Object(previous)];
                assert(args@ =~= seq![EventArg::Object(previous)]);
                self.send_serial(pointer, PTR_LEAVE, args);
                self.frame(pointer);
            },
            None => {},
        }
        let args: Vec<EventArg> = vec![EventArg::Object(surface), EventArg::Fixed(x), EventArg::Fixed(y)];
        assert(args@ =~= seq![EventArg::Object(surface), EventArg::Fixed(x), EventArg::Fixed(y)]);
        self.send_serial(pointer, PTR_ENTER, args);
        self.frame(pointer);
        self.step(Step::PointerOn(surface));
    }

    /// Move the pointer.
    pub fn motion(&mut self, pointer: u64, x: i32, y: i32)
        ensures
            final(self)@ == old(self)@.motion(pointer, x, y),
    {
        let args: Vec<EventArg> = vec![EventArg::Now, EventArg::Fixed(x), EventArg::Fixed(y)];
        assert(args@ =~= seq![EventArg::Now, EventArg::Fixed(x), EventArg::Fixed(y)]);
        self.send(pointer, PTR_MOTION, args);
    }

    /// Press or release a button.
    pub fn button(&mut self, pointer: u64, button: u32, state: u32)
        ensures
            final(self)@ == old(self)@.button(pointer, button, state),
    {
        let args: Vec<EventArg> = vec![EventArg::Now, EventArg::Uint(button), EventArg::Uint(state)];
        assert(args@ =~= seq![EventArg::Now, EventArg::Uint(button), EventArg::Uint(state)]);
        self.send_serial(pointer, PTR_BUTTON, args);
        self.frame(pointer);
    }

    /// Route synthetic keyboard events to a surface, unless they go there
    /// already.
    pub fn ensure_keyboard_focus(&mut self, keyboard: u64, surface: u64)
        ensures
            final(self)@ == old(self)@.keyboard_on(keyboard, surface),
    {
        if self.input.keyboard_focus == Some(surface) {
            return;
        }
        match self.input.keyboard_focus {
            Some(previous) => {
                let args: Vec<EventArg> = vec![EventArg::Object(previous)];
                assert(args@ =~= seq![EventArg::Object(previous)]);
                self.send_serial(keyboard, KBD_LEAVE, args);
            },
            None => {},
        }
        let args: Vec<EventArg> = vec![EventArg::Object(surface), EventArg::NoKeys];
        assert(args@ =~= seq![EventArg::Object(surface), EventArg::NoKeys]);
        self.send_serial(keyboard, KBD_ENTER, args);
        self.step(Step::KeyboardOn(surface));
    }

    /// Press or release a key.
    pub fn key(&mut self, keycode: u32, pressed: bool)
        ensures
            final(self)@ == old(self)@.key(keycode, pressed),
    {
        let keyboard: u64 = match self.input.keyboard {
            Some(keyboard) => keyboard,
            None => {
                self.fail("the app has not created a wl_keyboard yet".to_owned());
                return;
            },
        };
        let surface: u64 = match self.surface {
            Some(surface) => surface,
            None => {
                self.fail("the app has no surface to receive keyboard input".to_owned());
                return;
            },
        };
        self.ensure_keyboard_focus(keyboard, surface);
        let evdev: u32 = if keycode < 8 {
            0
        } else {
            keycode - 8
        };
        let state: u32 = if pressed {
            KEY_PRESSED
        } else {
            KEY_RELEASED
        };
        let args: Vec<EventArg> = vec![EventArg::Now, EventArg::Uint(evdev), EventArg::Uint(state)];
        assert(args@ =~= seq![EventArg::Now, EventArg::Uint(evdev), EventArg::Uint(state)]);
        self.send_serial(keyboard, KBD_KEY, args);
    }

    /// Announce the modifiers that are held. Text widgets rely on this event,
    /// not just on the key events, to follow modifiers.
    pub fn send_modifiers(&mut self, depressed: u32)
        ensures
            final(self)@ == old(self)@.modifiers(depressed),
    {
        let keyboard: u64 = match self.input.keyboard {
            Some(keyboard) => keyboard,
            None => {
                self.fail("the app has not created a wl_keyboard yet".to_owned());
                return;
            },
        };
        let args: Vec<EventArg> = vec![EventArg::Uint(depressed), EventArg::Uint(0), EventArg::Uint(0), EventArg::Uint(0)];
        assert(args@ =~= seq![EventArg::Uint(depressed), EventArg::Uint(0), EventArg::Uint(0), EventArg::Uint(0)]);
        self.send_serial(keyboard, KBD_MODIFIERS, args);
    }
}

} // verus!
