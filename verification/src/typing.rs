//! Keyboard injection: modifiers, key combinations and text.
use crate::inject::{click_after, Plan, PlanView};
use crate::input::InputState;
use crate::keymap::{keysym_for_key, to_ascii_lower};
use crate::keytable::{modifier_mask, resolve_text, CharResolution, KeyTable, TextResolution};
use crate::plan::{EventArg, Planner, PlannerView, Step, StepView, TEXT_COMMIT_STRING, TEXT_DONE};
use crate::text::{chars_of, join3, join2, prefixed_hex_text, same_text, split_plus, trim};
use vstd::prelude::*;

verus! {

/// Keysyms of the control characters that have a key of their own.
pub const KEYSYM_ENTER: u32 = 0xff0d;

pub const KEYSYM_TAB: u32 = 0xff09;

pub const KEYSYM_BACKSPACE: u32 = 0xff08;

pub const KEYSYM_ESCAPE: u32 = 0xff1b;

/// The application's keyboard layout, as far as it could be had.
pub enum Layout {
    /// The layout text could not be read.
    Unreadable(String),
    /// The layout text could not be compiled.
    Invalid,
    Ready(KeyTable),
}

impl Layout {
    /// A layout that is there is well-formed.
    pub open spec fn wf(self) -> bool {
        self matches Layout::Ready(table) ==> table.wf() && table.shift_fits()
    }
}

/// A modifier key that is held down.
#[derive(Clone, Copy, Debug, PartialEq, Eq, Structural)]
pub struct HeldModifier {
    pub keycode: u32,
    pub mask: u32,
}

// ---------------------------------------------------------------------------
// Modifier names
// ---------------------------------------------------------------------------

/// The key and the modifier that a modifier name in small letters stands for.
pub open spec fn modifier_named(name: Seq<char>) -> Option<(Seq<char>, Seq<char>)> {
    if name == "shift"@ {
        Some(("shift"@, "Shift"@))
    } else if name == "ctrl"@ || name == "control"@ {
        Some(("ctrl"@, "Control"@))
    } else if name == "alt"@ || name == "option"@ {
        Some(("alt"@, "Mod1"@))
    } else if name == "super"@ || name == "cmd"@ || name == "command"@ || name == "meta"@ {
        Some(("super"@, "Mod4"@))
    } else {
        None
    }
}

/// The key and the modifier that a modifier name stands for.
pub open spec fn modifier_of(name: Seq<char>) -> Option<(Seq<char>, Seq<char>)> {
    modifier_named(crate::keymap::ascii_lower(crate::text::trimmed(name)))
}

/// The key name and the layout's modifier name of a portable modifier name.
pub fn modifier_definition(name: &str) -> (definition: Option<(&'static str, &'static str)>)
    ensures
        match definition {
            Some((key, xkb)) => modifier_of(name@) == Some((key@, xkb@)),
            None => modifier_of(name@) is None,
        },
{
    let trimmed: &str = trim(name);
    let lower: String = to_ascii_lower(trimmed);
    let name: &str = lower.as_str();
    if same_text(name, "shift") {
        Some(("shift", "Shift"))
    } else if same_text(name, "ctrl") || same_text(name, "control") {
        Some(("ctrl", "Control"))
    } else if same_text(name, "alt") || same_text(name, "option") {
        Some(("alt", "Mod1"))
    } else if same_text(name, "super") || same_text(name, "cmd") || same_text(name, "command")
        || same_text(name, "meta") {
        Some(("super", "Mod4"))
    } else {
        None
    }
}

// ---------------------------------------------------------------------------
// Holding and releasing modifiers
// ---------------------------------------------------------------------------

/// The outcome of pressing a list of modifiers: the steps, the modifiers that
/// are held, the mask that was announced last, and the reason to let go of
/// them again, if there is one.
pub struct Press {
    pub plan: Planner,
    pub held: Vec<HeldModifier>,
    pub depressed: u32,
    pub refusal: Option<String>,
}

/// What pressing modifiers amounts to.
#[verifier::ext_equal]
pub struct PressView {
    pub plan: PlannerView,
    pub held: Seq<HeldModifier>,
    pub depressed: u32,
    pub refusal: Option<Seq<char>>,
}

impl View for Press {
    type V = PressView;

    open spec fn view(&self) -> PressView {
        PressView {
            plan: self.plan@,
            held: self.held@,
            depressed: self.depressed,
            refusal: match self.refusal {
                Some(message) => Some(message@),
                None => None,
            },
        }
    }
}

impl PressView {
    /// Nothing is pressed yet.
    pub open spec fn start(plan: PlannerView) -> Self {
        PressView { plan, held: Seq::empty(), depressed: 0, refusal: None }
    }

    /// Press one more modifier. An unknown one, or one without a key, is a
    /// reason to let go; one without a bit in the layout ends the plan.
    pub open spec fn press(self, table: KeyTable, name: Seq<char>) -> Self {
        if self.plan.failed || self.refusal is Some {
            self
        } else {
            match modifier_of(name) {
                None => PressView { refusal: Some("unknown modifier '"@ + name + "'"@), ..self },
                Some((key, xkb)) => match crate::keymap::keysym_of(key) {
                    None => PressView {
                        plan: self.plan.fail("unknown modifier key '"@ + name + "'"@),
                        ..self
                    },
                    Some(keysym) => match table.keycode(keysym) {
                        None => PressView {
                            refusal: Some("keyboard layout has no keycode for '"@ + name + "'"@),
                            ..self
                        },
                        Some(keycode) => match crate::keytable::mask_of(table.index_of(xkb)) {
                            None => PressView {
                                plan: self.plan.fail(
                                    crate::keytable::mask_error(table.index_of(xkb), xkb),
                                ),
                                ..self
                            },
                            Some(mask) => PressView {
                                plan: self.plan.key(keycode, true).modifiers(self.depressed | mask),
                                held: self.held.push(HeldModifier { keycode, mask }),
                                depressed: self.depressed | mask,
                                refusal: None,
                            },
                        },
                    },
                },
            }
        }
    }

    /// Press modifiers one after the other.
    pub open spec fn press_each(self, table: KeyTable, names: Seq<Seq<char>>) -> Self
        decreases names.len(),
    {
        if names.len() == 0 {
            self
        } else {
            self.press_each(table, names.drop_last()).press(table, names.last())
        }
    }

    /// Press modifiers, for which a layout is needed unless there are none.
    pub open spec fn press_all(self, layout: Layout, names: Seq<Seq<char>>) -> Self {
        if names.len() == 0 {
            self
        } else {
            match layout {
                Layout::Unreadable(error) => PressView { plan: self.plan.fail(error@), ..self },
                Layout::Invalid => PressView {
                    plan: self.plan.fail("failed to parse the app's keymap"@),
                    ..self
                },
                Layout::Ready(table) => self.press_each(table, names),
            }
        }
    }
}

/// The bits of all held modifiers together.
pub open spec fn held_mask(held: Seq<HeldModifier>) -> u32
    decreases held.len(),
{
    if held.len() == 0 {
        0
    } else {
        held_mask(held.drop_last()) | held.last().mask
    }
}

impl PlannerView {
    /// Let go of held modifiers, the last one first, announcing after each
    /// what is still held.
    pub open spec fn released(self, held: Seq<HeldModifier>, depressed: u32) -> Self
        decreases held.len(),
    {
        if held.len() == 0 {
            self
        } else {
            let rest = depressed & !held.last().mask;
            self.key(held.last().keycode, false).modifiers(rest).released(held.drop_last(), rest)
        }
    }
}

impl Press {
    fn press(&mut self, table: &KeyTable, name: &str)
        requires
            table.wf(),
        ensures
            final(self)@ == old(self)@.press(*table, name@),
    {
        if self.plan.failed || self.refusal.is_some() {
            return;
        }
        let (key, xkb) = match modifier_definition(name) {
            Some(definition) => definition,
            None => {
                self.refusal = Some(join3("unknown modifier '", name, "'"));
                return;
            },
        };
        let keysym: u32 = match keysym_for_key(key) {
            Some(keysym) => keysym,
            None => {
                self.plan.fail(join3("unknown modifier key '", name, "'"));
                return;
            },
        };
        let keycode: u32 = match table.find_keycode_for_keysym(keysym) {
            Some(keycode) => keycode,
            None => {
                self.refusal = Some(join3("keyboard layout has no keycode for '", name, "'"));
                return;
            },
        };
        let index: u32 = table.modifier_index(xkb);
        let mask: u32 = match modifier_mask(index, xkb) {
            Ok(mask) => mask,
            Err(error) => {
                self.plan.fail(error);
                return;
            },
        };
        self.plan.key(keycode, true);
        self.depressed = self.depressed | mask;
        self.plan.send_modifiers(self.depressed);
        self.held.push(HeldModifier { keycode, mask });
    }
}

/// Press the modifiers of a list of names.
pub fn press_named_modifiers(
    input: InputState,
    surface: Option<u64>,
    layout: &Layout,
    names: &Vec<String>,
) -> (press: Press)
    requires
        layout.wf(),
    ensures
        press@ == PressView::start(PlannerView::start(input, surface)).press_all(
            *layout,
            crate::text::texts(names@),
        ),
{
    let mut press: Press = Press {
        plan: Planner::start(input, surface),
        held: Vec::new(),
        depressed: 0,
        refusal: None,
    };
    let ghost begun = PressView::start(PlannerView::start(input, surface));
    let ghost all = crate::text::texts(names@);
    assert(press@ =~= begun);
    if names.len() == 0 {
        return press;
    }
    match layout {
        Layout::Unreadable(error) => {
            press.plan.fail(error.clone());
        },
        Layout::Invalid => {
            press.plan.fail("failed to parse the app's keymap".to_owned());
        },
        Layout::Ready(table) => {
            let mut i: usize = 0;
            assert(press@ == begun.press_each(*table, all.take(0)));
            while i < names.len()
                invariant
                    i <= names.len(),
                    table.wf(),
                    all == crate::text::texts(names@),
                    press@ == begun.press_each(*table, all.take(i as int)),
                decreases names.len() - i,
            {
                proof {
                    assert(all.take(i + 1).drop_last() =~= all.take(i as int));
                    assert(all.take(i + 1).last() == names@[i as int]@);
                }
                press.press(table, names[i].as_str());
                i = i + 1;
            }
            assert(all.take(all.len() as int) =~= all);
        },
    }
    press
}

/// The steps that let go of held modifiers.
pub fn release_named_modifiers(input: InputState, surface: Option<u64>, held: &Vec<HeldModifier>) -> (steps:
    Vec<Step>)
    ensures
        crate::plan::step_views(steps@) == PlannerView::start(input, surface).released(
            held@,
            held_mask(held@),
        ).steps,
{
    let mut depressed: u32 = 0;
    let mut i: usize = 0;
    while i < held.len()
        invariant
            i <= held.len(),
            depressed == held_mask(held@.take(i as int)),
        decreases held.len() - i,
    {
        proof {
            assert(held@.take(i + 1).drop_last() =~= held@.take(i as int));
            assert(held@.take(i + 1).last() == held@[i as int]);
        }
        depressed = depressed | held[i].mask;
        i = i + 1;
    }
    assert(held@.take(held@.len() as int) =~= held@);
    let mut plan: Planner = Planner::start(input, surface);
    let ghost whole = plan@.released(held@, depressed);
    let mut left: usize = held.len();
    while left > 0
        invariant
            left <= held.len(),
            plan@.released(held@.take(left as int), depressed) == whole,
        decreases left,
    {
        proof {
            assert(held@.take(left as int).drop_last() =~= held@.take(left - 1));
            assert(held@.take(left as int).last() == held@[left - 1]);
        }
        let item: HeldModifier = held[left - 1];
        plan.key(item.keycode, false);
        depressed = depressed & !item.mask;
        plan.send_modifiers(depressed);
        left = left - 1;
    }
    plan.steps
}

// ---------------------------------------------------------------------------
// Clicks with modifiers
// ---------------------------------------------------------------------------

/// The plan of a click while modifiers are held. They are let go in any case,
/// once all of them could be pressed or one was refused.
pub open spec fn modified_click_plan(
    input: InputState,
    surface: Option<u64>,
    layout: Layout,
    names: Seq<Seq<char>>,
    x: i32,
    y: i32,
    button: u32,
    count: u32,
) -> PlanView {
    let press = PressView::start(PlannerView::start(input, surface)).press_all(layout, names);
    let after = PlannerView::start(press.plan.input, surface);
    let close = after.released(press.held, held_mask(press.held)).steps;
    if press.plan.failed {
        PlanView::only_open(press.plan.steps)
    } else {
        match press.refusal {
            Some(message) => PlanView {
                open: press.plan.steps,
                lead: after.fail(message).steps,
                cycle: Seq::empty(),
                cycles: 0,
                close,
            },
            None => crate::inject::click_between(
                press.plan.steps,
                after.click_lead(x, y),
                button,
                count,
                close,
            ),
        }
    }
}

/// Plan a click while holding a `+`-separated list of modifiers.
pub fn plan_click_with_modifiers(
    input: InputState,
    surface: Option<u64>,
    layout: &Layout,
    modifiers: Option<&str>,
    x: i32,
    y: i32,
    button: u32,
    count: u32,
) -> (plan: Plan)
    requires
        layout.wf(),
    ensures
        plan@ == modified_click_plan(
            input,
            surface,
            *layout,
            match modifiers {
                Some(list) => crate::text::plus_names(list@),
                None => Seq::empty(),
            },
            x,
            y,
            button,
            count,
        ),
{
    let names: Vec<String> = match modifiers {
        Some(list) => split_plus(list),
        None => Vec::new(),
    };
    assert(modifiers is None ==> crate::text::texts(names@) =~= Seq::empty());
    let press: Press = press_named_modifiers(input, surface, layout, &names);
    let input: InputState = press.plan.input;
    if press.plan.failed {
        return Plan::only_open(press.plan.steps);
    }
    let close: Vec<Step> = release_named_modifiers(input, surface, &press.held);
    match press.refusal {
        Some(message) => {
            let mut lead: Planner = Planner::start(input, surface);
            lead.fail(message);
            Plan::once(press.plan.steps, lead.steps, close)
        },
        None => click_after(press.plan.steps, input, surface, x, y, button, count, close),
    }
}

// ---------------------------------------------------------------------------
// Key combinations
// ---------------------------------------------------------------------------

impl PlannerView {
    /// Press and release the key of a name.
    pub open spec fn tapped(self, layout: Layout, name: Seq<char>) -> Self {
        match crate::keymap::keysym_of(name) {
            None => self.fail("unknown key '"@ + name + "'"@),
            Some(keysym) => match layout {
                Layout::Unreadable(error) => self.fail(error@),
                Layout::Invalid => self.fail("failed to parse the app's keymap"@),
                Layout::Ready(table) => match table.keycode(keysym) {
                    None => self.fail("keyboard layout has no keycode for '"@ + name + "'"@),
                    Some(keycode) => self.key(keycode, true).sleep(20).key(keycode, false),
                },
            },
        }
    }
}

/// The plan of a key combination: the last name is the key, the others are
/// modifiers.
pub open spec fn combination_plan(
    input: InputState,
    surface: Option<u64>,
    layout: Layout,
    names: Seq<Seq<char>>,
) -> PlanView {
    if names.len() == 0 {
        PlanView::only_open(PlannerView::start(input, surface).fail("empty key"@).steps)
    } else {
        let press = PressView::start(PlannerView::start(input, surface)).press_all(
            layout,
            names.drop_last(),
        );
        let after = PlannerView::start(press.plan.input, surface);
        let close = after.released(press.held, held_mask(press.held)).steps;
        if press.plan.failed {
            PlanView::only_open(press.plan.steps)
        } else {
            match (press.refusal, layout) {
                (Some(message), _) => PlanView {
                    open: press.plan.steps,
                    lead: after.fail(message).steps,
                    cycle: Seq::empty(),
                    cycles: 0,
                    close,
                },
                (None, Layout::Unreadable(error)) => PlanView::only_open(
                    press.plan.fail(error@).steps,
                ),
                (None, _) => PlanView {
                    open: press.plan.steps,
                    lead: after.tapped(layout, names.last()).steps,
                    cycle: Seq::empty(),
                    cycles: 0,
                    close,
                },
            }
        }
    }
}

impl Planner {
    fn tap(&mut self, layout: &Layout, name: &str)
        requires
            layout.wf(),
        ensures
            final(self)@ == old(self)@.tapped(*layout, name@),
    {
        let keysym: u32 = match keysym_for_key(name) {
            Some(keysym) => keysym,
            None => {
                self.fail(join3("unknown key '", name, "'"));
                return;
            },
        };
        match layout {
            Layout::Unreadable(error) => {
                self.fail(error.clone());
            },
            Layout::Invalid => {
                self.fail("failed to parse the app's keymap".to_owned());
            },
            Layout::Ready(table) => match table.find_keycode_for_keysym(keysym) {
                None => {
                    self.fail(join3("keyboard layout has no keycode for '", name, "'"));
                },
                Some(keycode) => {
                    self.key(keycode, true);
                    self.sleep(20);
                    self.key(keycode, false);
                },
            },
        }
    }
}

/// Plan a key or a `+`-separated key combination, such as `ctrl+shift+p`.
pub fn plan_key_combo(
    input: InputState,
    surface: Option<u64>,
    layout: &Layout,
    combination: &str,
) -> (plan: Plan)
    requires
        layout.wf(),
    ensures
        plan@ == combination_plan(
            input,
            surface,
            *layout,
            crate::text::plus_names(combination@),
        ),
{
    let mut names: Vec<String> = split_plus(combination);
    let ghost all = crate::text::texts(names@);
    let last: String = match names.pop() {
        Some(last) => last,
        None => {
            let mut open: Planner = Planner::start(input, surface);
            open.fail("empty key".to_owned());
            return Plan::only_open(open.steps);
        },
    };
    assert(crate::text::texts(names@) =~= all.drop_last());
    let mut press: Press = press_named_modifiers(input, surface, layout, &names);
    let after: InputState = press.plan.input;
    if press.plan.failed {
        return Plan::only_open(press.plan.steps);
    }
    let close: Vec<Step> = release_named_modifiers(after, surface, &press.held);
    let mut lead: Planner = Planner::start(after, surface);
    match press.refusal {
        Some(message) => {
            lead.fail(message);
        },
        None => match layout {
            Layout::Unreadable(error) => {
                press.plan.fail(error.clone());
                return Plan::only_open(press.plan.steps);
            },
            _ => {
                lead.tap(layout, last.as_str());
            },
        },
    }
    Plan::once(press.plan.steps, lead.steps, close)
}

// ---------------------------------------------------------------------------
// Text
// ---------------------------------------------------------------------------

/// The key of a control character that has one.
pub open spec fn special_keysym(c: char) -> Option<u32> {
    if c == '\n' {
        Some(KEYSYM_ENTER)
    } else if c == '\t' {
        Some(KEYSYM_TAB)
    } else if c as u32 == 8 {
        Some(KEYSYM_BACKSPACE)
    } else if c as u32 == 0x1b {
        Some(KEYSYM_ESCAPE)
    } else {
        None
    }
}

fn special_key(c: char) -> (keysym: Option<u32>)
    ensures
        keysym == special_keysym(c),
{
    if c == '\n' {
        Some(KEYSYM_ENTER)
    } else if c == '\t' {
        Some(KEYSYM_TAB)
    } else if c as u32 == 8 {
        Some(KEYSYM_BACKSPACE)
    } else if c as u32 == 0x1b {
        Some(KEYSYM_ESCAPE)
    } else {
        None
    }
}

impl PlannerView {
    /// Press and release the key of a control character.
    pub open spec fn special_typed(self, table: KeyTable, keysym: u32) -> Self {
        match table.keycode(keysym) {
            None => self.fail(
                "no keycode for special keysym "@ + crate::text::prefixed_hexadecimal(
                    keysym as nat,
                ),
            ),
            Some(keycode) => self.key(keycode, true).key(keycode, false),
        }
    }

    /// Hold Shift.
    pub open spec fn shift_held(self, table: KeyTable) -> Self {
        match table.keycode(crate::keytable::KEYSYM_SHIFT_L) {
            None => self.fail("layout needs Shift but no Shift keycode was found"@),
            Some(shift) => self.key(shift, true).modifiers(table.shift_mask()).sleep(20),
        }
    }

    /// Let go of Shift.
    pub open spec fn shift_let_go(self, table: KeyTable) -> Self {
        match table.keycode(crate::keytable::KEYSYM_SHIFT_L) {
            None => self,
            Some(shift) => self.sleep(20).key(shift, false).modifiers(0),
        }
    }

    /// Type a character that the layout resolves as given.
    pub open spec fn char_typed(
        self,
        table: KeyTable,
        c: char,
        found: Option<CharResolution>,
    ) -> Self {
        match found {
            None => self.fail(
                "character '"@ + seq![c] + "' has no keycode on this keyboard layout"@,
            ),
            Some(found) => {
                let pressed = if found.needs_shift {
                    self.shift_held(table)
                } else {
                    self
                };
                let tapped = pressed.key(found.keycode, true).sleep(20).key(found.keycode, false);
                let up = if found.needs_shift {
                    tapped.shift_let_go(table)
                } else {
                    tapped
                };
                up.sleep(25)
            },
        }
    }

    /// Type one character whose keysym is given.
    #[verifier::opaque]
    pub open spec fn one_typed(self, table: KeyTable, c: char, keysym: u32) -> Self {
        match special_keysym(c) {
            Some(special) => self.special_typed(table, special),
            None => self.char_typed(table, c, table.resolution(keysym)),
        }
    }

    /// Type a text, one key per character. The keysyms are those of the
    /// characters.
    pub open spec fn typed(self, table: KeyTable, chars: Seq<char>, keysyms: Seq<u32>) -> Self
        decreases chars.len(),
    {
        if chars.len() == 0 {
            self
        } else {
            self.typed(table, chars.drop_last(), keysyms.drop_last()).one_typed(
                table,
                chars.last(),
                keysyms.last(),
            )
        }
    }

    /// Hand a text over as a whole.
    pub open spec fn committed_text(self, text_input: u64, text: Seq<char>) -> Self {
        if text.contains('\0') {
            self.fail("text input cannot contain a NUL character"@)
        } else {
            self.step(
                StepView::SendText { target: text_input, opcode: TEXT_COMMIT_STRING, text },
            ).send(
                text_input,
                TEXT_DONE,
                seq![EventArg::Uint(self.input.text_input_commit_serial)],
            )
        }
    }

    /// Give a text to the application: as a whole where it takes text, else
    /// key by key.
    pub open spec fn text_given(self, layout: Layout, text: Seq<char>, keysyms: Seq<u32>) -> Self {
        if self.input.text_input_enabled && self.input.text_input is Some {
            self.committed_text(self.input.text_input.unwrap(), text)
        } else {
            match layout {
                Layout::Unreadable(error) => self.fail(error@),
                Layout::Invalid => if text.len() == 0 {
                    self
                } else {
                    self.fail("failed to parse the app's keymap"@)
                },
                Layout::Ready(table) => self.typed(table, text, keysyms),
            }
        }
    }
}

impl Planner {
    fn type_special(&mut self, table: &KeyTable, keysym: u32)
        requires
            table.wf(),
        ensures
            final(self)@ == old(self)@.special_typed(*table, keysym),
    {
        match table.find_keycode_for_keysym(keysym) {
            None => {
                let number: String = prefixed_hex_text(keysym);
                self.fail(join2("no keycode for special keysym ", number.as_str()));
            },
            Some(keycode) => {
                self.key(keycode, true);
                self.key(keycode, false);
            },
        }
    }

    fn type_char(&mut self, resolved: &TextResolution, Ghost(table): Ghost<KeyTable>, c: char, found: Option<CharResolution>)
        requires
            resolved.shift_keycode == table.keycode(crate::keytable::KEYSYM_SHIFT_L),
            resolved.shift_mask == table.shift_mask(),
        ensures
            final(self)@ == old(self)@.char_typed(table, c, found),
    {
        let key: CharResolution = match found {
            Some(key) => key,
            None => {
                let mut name: String = String::new();
                name.push(c);
                assert(name@ =~= seq![c]);
                self.fail(
                    join3(
                        "character '",
                        name.as_str(),
                        "' has no keycode on this keyboard layout",
                    ),
                );
                return;
            },
        };
        if key.needs_shift {
            match resolved.shift_keycode {
                Some(shift) => {
                    self.key(shift, true);
                    self.send_modifiers(resolved.shift_mask);
                    self.sleep(20);
                },
                None => {
                    self.fail("layout needs Shift but no Shift keycode was found".to_owned());
                },
            }
        }
        self.key(key.keycode, true);
        self.sleep(20);
        self.key(key.keycode, false);
        if key.needs_shift {
            match resolved.shift_keycode {
                Some(shift) => {
                    self.sleep(20);
                    self.key(shift, false);
                    self.send_modifiers(0);
                },
                None => {},
            }
        }
        self.sleep(25);
    }

    fn type_one(
        &mut self,
        table: &KeyTable,
        resolved: &TextResolution,
        c: char,
        found: Option<CharResolution>,
        Ghost(keysym): Ghost<u32>,
    )
        requires
            table.wf(),
            resolved.shift_keycode == table.keycode(crate::keytable::KEYSYM_SHIFT_L),
            resolved.shift_mask == table.shift_mask(),
            found == table.resolution(keysym),
        ensures
            final(self)@ == old(self)@.one_typed(*table, c, keysym),
    {
        reveal(PlannerView::one_typed);
        match special_key(c) {
            Some(special) => self.type_special(table, special),
            None => self.type_char(resolved, Ghost(*table), c, found),
        }
    }

    fn type_all(&mut self, table: &KeyTable, text: &str, keysyms: &Vec<u32>)
        requires
            table.wf(),
            table.shift_fits(),
            keysyms@.len() == text@.len(),
        ensures
            final(self)@ == old(self)@.typed(*table, text@, keysyms@),
    {
        let chars: Vec<char> = chars_of(text);
        let resolved: TextResolution = resolve_text(table, keysyms);
        let mut i: usize = 0;
        assert(self@ == old(self)@.typed(*table, chars@.take(0), keysyms@.take(0)));
        while i < chars.len()
            invariant
                i <= chars.len(),
                table.wf(),
                chars@.len() == keysyms@.len(),
                resolved.shift_keycode == table.keycode(crate::keytable::KEYSYM_SHIFT_L),
                resolved.shift_mask == table.shift_mask(),
                resolved.resolutions@ == Seq::new(
                    keysyms@.len(),
                    |j: int| table.resolution(keysyms@[j]),
                ),
                self@ == old(self)@.typed(*table, chars@.take(i as int), keysyms@.take(i as int)),
            decreases chars.len() - i,
        {
            proof {
                assert(chars@.take(i + 1).drop_last() =~= chars@.take(i as int));
                assert(chars@.take(i + 1).last() == chars@[i as int]);
                assert(keysyms@.take(i + 1).drop_last() =~= keysyms@.take(i as int));
                assert(keysyms@.take(i + 1).last() == keysyms@[i as int]);
            }
            let c: char = chars[i];
            let found: Option<CharResolution> = resolved.resolutions[i];
            self.type_one(table, &resolved, c, found, Ghost(keysyms@[i as int]));
            i = i + 1;
        }
        assert(chars@.take(chars@.len() as int) =~= text@);
        assert(keysyms@.take(keysyms@.len() as int) =~= keysyms@);
    }
}

fn has_nul(text: &str) -> (found: bool)
    ensures
        found == text@.contains('\0'),
{
    let chars: Vec<char> = chars_of(text);
    let mut i: usize = 0;
    while i < chars.len()
        invariant
            i <= chars.len(),
            chars@ == text@,
            forall|j: int| 0 <= j < i ==> chars@[j] != '\0',
        decreases chars.len() - i,
    {
        if chars[i] == '\0' {
            assert(text@[i as int] == '\0');
            return true;
        }
        i = i + 1;
    }
    false
}

/// Plan to type a text. Applications that take committed text get it as a
/// whole, which does not depend on the layout; others get one key per
/// character. `keysyms` holds the keysym of each character.
pub fn plan_text(
    input: InputState,
    surface: Option<u64>,
    layout: &Layout,
    text: &str,
    keysyms: &Vec<u32>,
) -> (plan: Plan)
    requires
        layout.wf(),
        keysyms@.len() == text@.len(),
    ensures
        plan@ == PlanView::only_lead(
            PlannerView::start(input, surface).text_given(*layout, text@, keysyms@).steps,
        ),
{
    let mut lead: Planner = Planner::start(input, surface);
    if input.text_input_enabled {
        match input.text_input {
            Some(text_input) => {
                if has_nul(text) {
                    lead.fail("text input cannot contain a NUL character".to_owned());
                } else {
                    lead.step(
                        Step::SendText {
                            target: text_input,
                            opcode: TEXT_COMMIT_STRING,
                            text: text.to_owned(),
                        },
                    );
                    let args: Vec<EventArg> = vec![
                        EventArg::Uint(input.text_input_commit_serial),
                    ];
                    assert(args@ =~= seq![EventArg::Uint(input.text_input_commit_serial)]);
                    lead.send(text_input, TEXT_DONE, args);
                }
                return Plan::only_lead(lead.steps);
            },
            None => {},
        }
    }
    match layout {
        Layout::Unreadable(error) => {
            lead.fail(error.clone());
        },
        Layout::Invalid => {
            if !text.is_empty() {
                lead.fail("failed to parse the app's keymap".to_owned());
            }
        },
        Layout::Ready(table) => {
            lead.type_all(table, text, keysyms);
        },
    }
    Plan::only_lead(lead.steps)
}

} // verus!
