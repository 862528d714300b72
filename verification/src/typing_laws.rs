//! What typed keys and texts consist of, key by key.
use crate::input::InputState;
use crate::keytable::KeyTable;
use crate::plan::{EventArg, PlannerView, StepView};
use crate::typing::{HeldModifier, Layout, PressView};
use vstd::prelude::*;

verus! {

// ---------------------------------------------------------------------------
// Keyboard events
// ---------------------------------------------------------------------------

/// What a keyboard tells an application about its keys, with the pauses that
/// it makes.
pub enum KeyboardEvent {
    /// A key, as the kernel counts it, is pressed (1) or released (0).
    Key { key: u32, state: u32 },
    /// The modifiers of this mask are held, and none else.
    Held { mask: u32 },
    /// Nothing happens for so many milliseconds.
    Wait { millis: u64 },
}

/// What a step tells about the keys of a keyboard, or that it waits.
pub open spec fn keyboard_event(step: StepView, keyboard: u64) -> Option<KeyboardEvent> {
    match step {
        StepView::Send { target, opcode, serial, args } => if target != keyboard || !serial {
            None
        } else if opcode == 3 && args.len() == 3 && args[0] == EventArg::Now {
            match (args[1], args[2]) {
                (EventArg::Uint(key), EventArg::Uint(state)) => Some(
                    KeyboardEvent::Key { key, state },
                ),
                _ => None,
            }
        } else if opcode == 4 && args.len() == 4 && args[1] == EventArg::Uint(0) && args[2]
            == EventArg::Uint(0) && args[3] == EventArg::Uint(0) {
            match args[0] {
                EventArg::Uint(mask) => Some(KeyboardEvent::Held { mask }),
                _ => None,
            }
        } else {
            None
        },
        StepView::Sleep { millis } => Some(KeyboardEvent::Wait { millis }),
        _ => None,
    }
}

/// What steps tell about the keys of a keyboard, in order.
pub open spec fn keyboard_events(steps: Seq<StepView>, keyboard: u64) -> Seq<KeyboardEvent>
    decreases steps.len(),
{
    if steps.len() == 0 {
        Seq::empty()
    } else {
        let before = keyboard_events(steps.drop_last(), keyboard);
        match keyboard_event(steps.last(), keyboard) {
            Some(event) => before.push(event),
            None => before,
        }
    }
}

/// A layout's keycode as the kernel counts it.
pub open spec fn kernel_key(keycode: u32) -> u32 {
    if keycode >= 8 {
        (keycode - 8) as u32
    } else {
        0
    }
}

/// A key that is pressed.
pub open spec fn down(keycode: u32) -> KeyboardEvent {
    KeyboardEvent::Key { key: kernel_key(keycode), state: 1 }
}

/// A pause.
pub open spec fn wait(millis: u64) -> KeyboardEvent {
    KeyboardEvent::Wait { millis }
}

/// A key that is released.
pub open spec fn up(keycode: u32) -> KeyboardEvent {
    KeyboardEvent::Key { key: kernel_key(keycode), state: 0 }
}

proof fn lemma_events_pushed(steps: Seq<StepView>, step: StepView, keyboard: u64)
    ensures
        keyboard_events(steps.push(step), keyboard) == (match keyboard_event(step, keyboard) {
            Some(event) => keyboard_events(steps, keyboard).push(event),
            None => keyboard_events(steps, keyboard),
        }),
{
    assert(steps.push(step).drop_last() =~= steps);
    assert(steps.push(step).last() == step);
}

proof fn lemma_events_joined(a: Seq<StepView>, b: Seq<StepView>, keyboard: u64)
    ensures
        keyboard_events(a + b, keyboard) == keyboard_events(a, keyboard) + keyboard_events(
            b,
            keyboard,
        ),
    decreases b.len(),
{
    if b.len() == 0 {
        assert(a + b =~= a);
        assert(keyboard_events(a, keyboard) + keyboard_events(b, keyboard) =~= keyboard_events(
            a,
            keyboard,
        ));
    } else {
        lemma_events_joined(a, b.drop_last(), keyboard);
        assert((a + b).drop_last() =~= a + b.drop_last());
        assert((a + b).last() == b.last());
        assert(keyboard_events(a + b, keyboard) =~= keyboard_events(a, keyboard) + keyboard_events(
            b,
            keyboard,
        ));
    }
}

proof fn lemma_approach_tells_nothing(focus: Option<u64>, keyboard: u64, surface: u64)
    ensures
        keyboard_events(
            crate::plan_laws::keyboard_approach(focus, keyboard, surface),
            keyboard,
        ) == Seq::<KeyboardEvent>::empty(),
{
    let approach = crate::plan_laws::keyboard_approach(focus, keyboard, surface);
    let none = Seq::<StepView>::empty();
    let enter = StepView::Send {
        target: keyboard,
        opcode: 1,
        serial: true,
        args: seq![EventArg::Object(surface), EventArg::NoKeys],
    };
    let on = StepView::KeyboardOn(surface);
    match focus {
        Some(previous) => {
            let leave = StepView::Send {
                target: keyboard,
                opcode: 2,
                serial: true,
                args: seq![EventArg::Object(previous)],
            };
            lemma_events_pushed(none, leave, keyboard);
            lemma_events_pushed(none.push(leave), enter, keyboard);
            lemma_events_pushed(none.push(leave).push(enter), on, keyboard);
            if previous != surface {
                assert(approach =~= none.push(leave).push(enter).push(on));
            }
        },
        None => {
            lemma_events_pushed(none, enter, keyboard);
            lemma_events_pushed(none.push(enter), on, keyboard);
            assert(approach =~= none.push(enter).push(on));
        },
    }
}

/// Whether a plan can press keys of a keyboard on a surface.
pub open spec fn types_on(plan: PlannerView, keyboard: u64, surface: u64) -> bool {
    !plan.failed && plan.input.keyboard == Some(keyboard) && plan.surface == Some(surface)
}

/// The input state with the keyboard on a surface.
pub open spec fn focused_on(input: InputState, surface: u64) -> InputState {
    InputState { keyboard_focus: Some(surface), ..input }
}

proof fn lemma_key_told(
    plan: PlannerView,
    keycode: u32,
    pressed: bool,
    keyboard: u64,
    surface: u64,
)
    requires
        types_on(plan, keyboard, surface),
    ensures
        ({
            let after = plan.key(keycode, pressed);
            &&& types_on(after, keyboard, surface)
            &&& after.input == focused_on(plan.input, surface)
            &&& keyboard_events(after.steps, keyboard) == keyboard_events(
                plan.steps,
                keyboard,
            ).push(
                if pressed {
                    down(keycode)
                } else {
                    up(keycode)
                },
            )
        }),
{
    crate::plan_laws::law_key_events_have_their_form(plan, keyboard, surface, keycode, pressed, 0);
    let approach = crate::plan_laws::keyboard_approach(
        plan.input.keyboard_focus,
        keyboard,
        surface,
    );
    let state: u32 = if pressed {
        1
    } else {
        0
    };
    lemma_approach_tells_nothing(plan.input.keyboard_focus, keyboard, surface);
    lemma_events_joined(plan.steps, approach, keyboard);
    assert(keyboard_events(plan.steps, keyboard) + Seq::<KeyboardEvent>::empty()
        =~= keyboard_events(plan.steps, keyboard));
    lemma_events_pushed(
        plan.steps + approach,
        crate::plan_laws::key_event(keyboard, kernel_key(keycode), state),
        keyboard,
    );
}

proof fn lemma_mask_told(plan: PlannerView, mask: u32, keyboard: u64, surface: u64)
    requires
        types_on(plan, keyboard, surface),
    ensures
        ({
            let after = plan.modifiers(mask);
            &&& types_on(after, keyboard, surface)
            &&& after.input == plan.input
            &&& keyboard_events(after.steps, keyboard) == keyboard_events(
                plan.steps,
                keyboard,
            ).push(KeyboardEvent::Held { mask })
        }),
{
    crate::plan_laws::law_key_events_have_their_form(plan, keyboard, surface, 0, true, mask);
    lemma_events_pushed(
        plan.steps,
        crate::plan_laws::modifiers_event(keyboard, mask),
        keyboard,
    );
}

proof fn lemma_pause_told(plan: PlannerView, millis: u64, keyboard: u64, surface: u64)
    requires
        types_on(plan, keyboard, surface),
    ensures
        types_on(plan.sleep(millis), keyboard, surface),
        plan.sleep(millis).input == plan.input,
        keyboard_events(plan.sleep(millis).steps, keyboard) == keyboard_events(
            plan.steps,
            keyboard,
        ).push(wait(millis)),
{
    lemma_events_pushed(plan.steps, StepView::Sleep { millis }, keyboard);
}

// ---------------------------------------------------------------------------
// Text
// ---------------------------------------------------------------------------

/// The keysym of a control character that has a key of its own: newline, tab,
/// backspace and escape.
pub open spec fn control_key(c: char) -> Option<u32> {
    match c as u32 {
        10 => Some(0xff0du32),
        9 => Some(0xff09u32),
        8 => Some(0xff08u32),
        27 => Some(0xff1bu32),
        _ => None,
    }
}

/// Whether a layout has the key of a character, and Shift where that takes it.
pub open spec fn can_stroke(table: KeyTable, c: char, keysym: u32) -> bool {
    match control_key(c) {
        Some(control) => table.keycode(control) is Some,
        None => table.resolution(keysym) is Some && (table.resolution(keysym).unwrap().needs_shift
            ==> table.keycode(0xffe1) is Some),
    }
}

/// What typing a character tells: its key goes down and up again, and where
/// that takes Shift, Shift is held meanwhile and let go.
pub open spec fn strokes(table: KeyTable, c: char, keysym: u32) -> Seq<KeyboardEvent> {
    match control_key(c) {
        Some(control) => {
            let key = table.keycode(control).unwrap();
            seq![down(key), up(key)]
        },
        None => {
            let found = table.resolution(keysym).unwrap();
            let shift = table.keycode(0xffe1).unwrap();
            let mask = if table.shift_index == 0xffff_ffff {
                1u32
            } else {
                1u32 << table.shift_index
            };
            if found.needs_shift {
                seq![
                    down(shift),
                    KeyboardEvent::Held { mask },
                    wait(20),
                    down(found.keycode),
                    wait(20),
                    up(found.keycode),
                    wait(20),
                    up(shift),
                    KeyboardEvent::Held { mask: 0 },
                    wait(25),
                ]
            } else {
                seq![down(found.keycode), wait(20), up(found.keycode), wait(25)]
            }
        },
    }
}

proof fn lemma_shift_held(plan: PlannerView, table: KeyTable, keyboard: u64, surface: u64)
    requires
        types_on(plan, keyboard, surface),
        table.keycode(0xffe1) is Some,
    ensures
        ({
            let after = plan.shift_held(table);
            let mask = if table.shift_index == 0xffff_ffff {
                1u32
            } else {
                1u32 << table.shift_index
            };
            &&& types_on(after, keyboard, surface)
            &&& after.input == focused_on(plan.input, surface)
            &&& keyboard_events(after.steps, keyboard) == keyboard_events(plan.steps, keyboard)
                + seq![
                down(table.keycode(0xffe1).unwrap()),
                KeyboardEvent::Held { mask },
                wait(20),
            ]
        }),
{
    let shift = table.keycode(0xffe1).unwrap();
    let mask = table.shift_mask();
    lemma_key_told(plan, shift, true, keyboard, surface);
    let pressed = plan.key(shift, true);
    lemma_mask_told(pressed, mask, keyboard, surface);
    lemma_pause_told(pressed.modifiers(mask), 20, keyboard, surface);
    let after = plan.shift_held(table);
    assert(after == pressed.modifiers(mask).sleep(20));
    assert(keyboard_events(after.steps, keyboard) =~= keyboard_events(plan.steps, keyboard)
        + seq![down(shift), KeyboardEvent::Held { mask }, wait(20)]);
}

proof fn lemma_shift_let_go(plan: PlannerView, table: KeyTable, keyboard: u64, surface: u64)
    requires
        types_on(plan, keyboard, surface),
        table.keycode(0xffe1) is Some,
    ensures
        ({
            let after = plan.shift_let_go(table);
            &&& types_on(after, keyboard, surface)
            &&& after.input == focused_on(plan.input, surface)
            &&& keyboard_events(after.steps, keyboard) == keyboard_events(plan.steps, keyboard)
                + seq![
                wait(20),
                up(table.keycode(0xffe1).unwrap()),
                KeyboardEvent::Held { mask: 0 },
            ]
        }),
{
    let shift = table.keycode(0xffe1).unwrap();
    lemma_pause_told(plan, 20, keyboard, surface);
    let paused = plan.sleep(20);
    lemma_key_told(paused, shift, false, keyboard, surface);
    lemma_mask_told(paused.key(shift, false), 0, keyboard, surface);
    let after = plan.shift_let_go(table);
    assert(after == paused.key(shift, false).modifiers(0));
    assert(keyboard_events(after.steps, keyboard) =~= keyboard_events(plan.steps, keyboard)
        + seq![wait(20), up(shift), KeyboardEvent::Held { mask: 0 }]);
}

proof fn lemma_tapped_key(
    plan: PlannerView,
    keycode: u32,
    millis: u64,
    keyboard: u64,
    surface: u64,
)
    requires
        types_on(plan, keyboard, surface),
    ensures
        ({
            let after = plan.key(keycode, true).sleep(millis).key(keycode, false);
            &&& types_on(after, keyboard, surface)
            &&& after.input == focused_on(plan.input, surface)
            &&& keyboard_events(after.steps, keyboard) == keyboard_events(plan.steps, keyboard)
                + seq![down(keycode), wait(millis), up(keycode)]
        }),
{
    lemma_key_told(plan, keycode, true, keyboard, surface);
    let held = plan.key(keycode, true);
    lemma_pause_told(held, millis, keyboard, surface);
    lemma_key_told(held.sleep(millis), keycode, false, keyboard, surface);
    let after = held.sleep(millis).key(keycode, false);
    assert(keyboard_events(after.steps, keyboard) =~= keyboard_events(plan.steps, keyboard)
        + seq![down(keycode), wait(millis), up(keycode)]);
}

/// A character is typed exactly where the layout has its key; its strokes
/// come behind what was planned before. Where the layout has none, the plan
/// ends and says so.
pub proof fn law_characters_are_typed_by_their_key(
    plan: PlannerView,
    table: KeyTable,
    c: char,
    keysym: u32,
    keyboard: u64,
    surface: u64,
)
    requires
        types_on(plan, keyboard, surface),
    ensures
        ({
            let after = plan.one_typed(table, c, keysym);
            &&& after.failed <==> !can_stroke(table, c, keysym)
            &&& !after.failed ==> {
                &&& types_on(after, keyboard, surface)
                &&& after.input == focused_on(plan.input, surface)
                &&& keyboard_events(after.steps, keyboard) == keyboard_events(
                    plan.steps,
                    keyboard,
                ) + strokes(table, c, keysym)
            }
            &&& after.failed ==> after.steps == plan.steps.push(
                StepView::Fail(
                    if control_key(c) is Some {
                        "no keycode for special keysym "@ + crate::text::prefixed_hexadecimal(
                            control_key(c).unwrap() as nat,
                        )
                    } else if table.resolution(keysym) is None {
                        "character '"@ + seq![c] + "' has no keycode on this keyboard layout"@
                    } else {
                        "layout needs Shift but no Shift keycode was found"@
                    },
                ),
            )
        }),
{
    reveal(PlannerView::one_typed);
    assert(crate::typing::special_keysym(c) == control_key(c));
    let after = plan.one_typed(table, c, keysym);
    let told = keyboard_events(plan.steps, keyboard);
    match control_key(c) {
        Some(control) => match table.keycode(control) {
            Some(keycode) => {
                lemma_key_told(plan, keycode, true, keyboard, surface);
                lemma_key_told(plan.key(keycode, true), keycode, false, keyboard, surface);
                assert(keyboard_events(after.steps, keyboard) =~= told + strokes(
                    table,
                    c,
                    keysym,
                ));
            },
            None => {},
        },
        None => match table.resolution(keysym) {
            None => {},
            Some(found) => {
                if found.needs_shift && table.keycode(0xffe1) is None {
                    let ended = plan.fail("layout needs Shift but no Shift keycode was found"@);
                    assert(after == ended);
                } else if found.needs_shift {
                    lemma_shift_held(plan, table, keyboard, surface);
                    let held = plan.shift_held(table);
                    lemma_tapped_key(held, found.keycode, 20, keyboard, surface);
                    let tapped = held.key(found.keycode, true).sleep(20).key(found.keycode, false);
                    lemma_shift_let_go(tapped, table, keyboard, surface);
                    let free = tapped.shift_let_go(table);
                    lemma_pause_told(free, 25, keyboard, surface);
                    assert(after == free.sleep(25));
                    assert(keyboard_events(after.steps, keyboard) =~= told + strokes(
                        table,
                        c,
                        keysym,
                    ));
                } else {
                    lemma_tapped_key(plan, found.keycode, 20, keyboard, surface);
                    let tapped = plan.key(found.keycode, true).sleep(20).key(found.keycode, false);
                    lemma_pause_told(tapped, 25, keyboard, surface);
                    assert(after == tapped.sleep(25));
                    assert(keyboard_events(after.steps, keyboard) =~= told + strokes(
                        table,
                        c,
                        keysym,
                    ));
                }
            },
        },
    }
}

/// Typing a text types each of its characters, once and in order: what the
/// keyboard tells is the strokes of the first character, then those of the
/// second, and so on to the last. It fails exactly where the layout lacks the
/// key of some character.
pub proof fn law_texts_are_typed_character_by_character(
    plan: PlannerView,
    table: KeyTable,
    chars: Seq<char>,
    keysyms: Seq<u32>,
    keyboard: u64,
    surface: u64,
)
    requires
        types_on(plan, keyboard, surface),
        keysyms.len() == chars.len(),
    ensures
        ({
            let after = plan.typed(table, chars, keysyms);
            &&& !after.failed <==> forall|i: int|
                0 <= i < chars.len() ==> can_stroke(table, #[trigger] chars[i], keysyms[i])
            &&& !after.failed ==> {
                &&& types_on(after, keyboard, surface)
                &&& after.input.keyboard_focus == (if chars.len() == 0 {
                    plan.input.keyboard_focus
                } else {
                    Some(surface)
                })
                &&& keyboard_events(after.steps, keyboard) == keyboard_events(
                    plan.steps,
                    keyboard,
                ) + Seq::new(
                    chars.len(),
                    |i: int| strokes(table, chars[i], keysyms[i]),
                ).flatten()
            }
        }),
    decreases chars.len(),
{
    let parts = Seq::new(chars.len(), |i: int| strokes(table, chars[i], keysyms[i]));
    let told = keyboard_events(plan.steps, keyboard);
    crate::plan_laws::lemma_joined(parts);
    if chars.len() == 0 {
        assert(told + parts.flatten() =~= told);
    } else {
        let front = chars.drop_last();
        let symbols = keysyms.drop_last();
        law_texts_are_typed_character_by_character(plan, table, front, symbols, keyboard, surface);
        let before = plan.typed(table, front, symbols);
        let last = chars.len() - 1;
        assert(chars.last() == chars[last] && keysyms.last() == keysyms[last]);
        assert forall|i: int| 0 <= i < front.len() implies #[trigger] front[i] == chars[i]
            && symbols[i] == keysyms[i] by {}
        if before.failed {
            lemma_ended_typing(before, table, chars[last], keysyms[last]);
            let i = choose|i: int|
                0 <= i < front.len() && !can_stroke(table, #[trigger] front[i], symbols[i]);
            assert(!can_stroke(table, chars[i], keysyms[i]));
        } else {
            law_characters_are_typed_by_their_key(
                before,
                table,
                chars[last],
                keysyms[last],
                keyboard,
                surface,
            );
            let parts_before = Seq::new(
                front.len(),
                |i: int| strokes(table, front[i], symbols[i]),
            );
            assert(parts.drop_last() =~= parts_before);
            let after = plan.typed(table, chars, keysyms);
            if !after.failed {
                assert forall|i: int| 0 <= i < chars.len() implies can_stroke(
                    table,
                    #[trigger] chars[i],
                    keysyms[i],
                ) by {
                    if i < last {
                        assert(front[i] == chars[i]);
                    }
                }
                assert(keyboard_events(after.steps, keyboard) =~= told + parts.flatten());
            }
        }
    }
}

proof fn lemma_ended_typing(plan: PlannerView, table: KeyTable, c: char, keysym: u32)
    requires
        plan.failed,
    ensures
        plan.one_typed(table, c, keysym) == plan,
{
    reveal(PlannerView::one_typed);
}

/// How many keys are pressed.
pub open spec fn presses_in(events: Seq<KeyboardEvent>) -> nat
    decreases events.len(),
{
    if events.len() == 0 {
        0
    } else {
        presses_in(events.drop_last()) + (if events.last() matches KeyboardEvent::Key { state, .. }
            && state == 1 {
            1nat
        } else {
            0
        })
    }
}

/// How many characters of a text take Shift.
pub open spec fn shifted_in(table: KeyTable, chars: Seq<char>, keysyms: Seq<u32>) -> nat
    decreases chars.len(),
{
    if chars.len() == 0 {
        0
    } else {
        shifted_in(table, chars.drop_last(), keysyms.drop_last()) + (if control_key(chars.last())
            is None && table.resolution(keysyms.last()).unwrap().needs_shift {
            1nat
        } else {
            0
        })
    }
}

proof fn lemma_presses_joined(a: Seq<KeyboardEvent>, b: Seq<KeyboardEvent>)
    ensures
        presses_in(a + b) == presses_in(a) + presses_in(b),
    decreases b.len(),
{
    if b.len() == 0 {
        assert(a + b =~= a);
    } else {
        assert((a + b).drop_last() =~= a + b.drop_last());
        lemma_presses_joined(a, b.drop_last());
    }
}

proof fn lemma_presses_pushed(events: Seq<KeyboardEvent>, event: KeyboardEvent)
    ensures
        presses_in(events.push(event)) == presses_in(events) + (
        if event matches KeyboardEvent::Key { state, .. } && state == 1 {
            1nat
        } else {
            0
        }),
{
    assert(events.push(event).drop_last() =~= events);
    assert(events.push(event).last() == event);
}

proof fn lemma_presses_of_strokes(table: KeyTable, c: char, keysym: u32)
    ensures
        presses_in(strokes(table, c, keysym)) == 1 + (if control_key(c) is None
            && table.resolution(keysym).unwrap().needs_shift {
            1nat
        } else {
            0
        }),
{
    let events = strokes(table, c, keysym);
    let none = Seq::<KeyboardEvent>::empty();
    if events.len() == 2 {
        assert(events =~= none.push(events[0]).push(events[1]));
        lemma_presses_pushed(none, events[0]);
        lemma_presses_pushed(none.push(events[0]), events[1]);
    } else if events.len() == 4 {
        let one = none.push(events[0]);
        let two = one.push(events[1]);
        let three = two.push(events[2]);
        assert(events =~= three.push(events[3]));
        lemma_presses_pushed(none, events[0]);
        lemma_presses_pushed(one, events[1]);
        lemma_presses_pushed(two, events[2]);
        lemma_presses_pushed(three, events[3]);
    } else {
        let one = none.push(events[0]);
        let two = one.push(events[1]);
        let three = two.push(events[2]);
        let four = three.push(events[3]);
        let five = four.push(events[4]);
        let six = five.push(events[5]);
        let seven = six.push(events[6]);
        let eight = seven.push(events[7]);
        let nine = eight.push(events[8]);
        assert(events =~= nine.push(events[9]));
        lemma_presses_pushed(none, events[0]);
        lemma_presses_pushed(one, events[1]);
        lemma_presses_pushed(two, events[2]);
        lemma_presses_pushed(three, events[3]);
        lemma_presses_pushed(four, events[4]);
        lemma_presses_pushed(five, events[5]);
        lemma_presses_pushed(six, events[6]);
        lemma_presses_pushed(seven, events[7]);
        lemma_presses_pushed(eight, events[8]);
        lemma_presses_pushed(nine, events[9]);
    }
}

/// As many keys are pressed as a text has characters, beside Shift for those
/// that take it: no character is left out, and none is typed twice.
pub proof fn law_each_character_is_one_press(
    plan: PlannerView,
    table: KeyTable,
    chars: Seq<char>,
    keysyms: Seq<u32>,
    keyboard: u64,
    surface: u64,
)
    requires
        types_on(plan, keyboard, surface),
        keysyms.len() == chars.len(),
        !plan.typed(table, chars, keysyms).failed,
    ensures
        presses_in(keyboard_events(plan.typed(table, chars, keysyms).steps, keyboard))
            == presses_in(keyboard_events(plan.steps, keyboard)) + chars.len() + shifted_in(
            table,
            chars,
            keysyms,
        ),
    decreases chars.len(),
{
    if chars.len() > 0 {
        let front = chars.drop_last();
        let symbols = keysyms.drop_last();
        let before = plan.typed(table, front, symbols);
        if before.failed {
            lemma_ended_typing(before, table, chars.last(), keysyms.last());
        }
        law_texts_are_typed_character_by_character(plan, table, front, symbols, keyboard, surface);
        law_each_character_is_one_press(plan, table, front, symbols, keyboard, surface);
        law_characters_are_typed_by_their_key(
            before,
            table,
            chars.last(),
            keysyms.last(),
            keyboard,
            surface,
        );
        lemma_presses_joined(
            keyboard_events(before.steps, keyboard),
            strokes(table, chars.last(), keysyms.last()),
        );
        lemma_presses_of_strokes(table, chars.last(), keysyms.last());
    }
}

/// A text goes to an enabled text input as a whole, unchanged, followed by
/// the number of the application's last commit; one with a NUL character is
/// refused. Without a text input it is typed.
pub proof fn law_texts_are_given_whole(
    input: InputState,
    surface: Option<u64>,
    layout: Layout,
    text: Seq<char>,
    keysyms: Seq<u32>,
)
    ensures
        ({
            let begun = PlannerView::start(input, surface);
            let steps = begun.text_given(layout, text, keysyms).steps;
            match input.text_input {
                Some(target) if input.text_input_enabled => if exists|i: int|
                    0 <= i < text.len() && text[i] == '\0' {
                    steps == seq![
                        StepView::Fail("text input cannot contain a NUL character"@),
                    ]
                } else {
                    steps == seq![
                        StepView::SendText { target, opcode: 3, text },
                        StepView::Send {
                            target,
                            opcode: 5,
                            serial: false,
                            args: seq![EventArg::Uint(input.text_input_commit_serial)],
                        },
                    ]
                },
                _ => match layout {
                    Layout::Unreadable(error) => steps == seq![StepView::Fail(error@)],
                    Layout::Invalid => steps == (if text.len() == 0 {
                        Seq::empty()
                    } else {
                        seq![StepView::Fail("failed to parse the app's keymap"@)]
                    }),
                    Layout::Ready(table) => begun.text_given(layout, text, keysyms) == begun.typed(
                        table,
                        text,
                        keysyms,
                    ),
                },
            }
        }),
{
    let begun = PlannerView::start(input, surface);
    let steps = begun.text_given(layout, text, keysyms).steps;
    if input.text_input_enabled && input.text_input is Some {
        if exists|i: int| 0 <= i < text.len() && text[i] == '\0' {
            let i = choose|i: int| 0 <= i < text.len() && text[i] == '\0';
            assert(text.contains('\0'));
            assert(steps =~= seq![StepView::Fail("text input cannot contain a NUL character"@)]);
        } else {
            assert(!text.contains('\0'));
            assert(steps =~= seq![
                StepView::SendText { target: input.text_input.unwrap(), opcode: 3, text },
                StepView::Send {
                    target: input.text_input.unwrap(),
                    opcode: 5,
                    serial: false,
                    args: seq![EventArg::Uint(input.text_input_commit_serial)],
                },
            ]);
        }
    } else {
        match layout {
            Layout::Unreadable(error) => {
                assert(steps =~= seq![StepView::Fail(error@)]);
            },
            Layout::Invalid => {
                if text.len() > 0 {
                    assert(steps =~= seq![StepView::Fail("failed to parse the app's keymap"@)]);
                }
            },
            Layout::Ready(_) => {},
        }
    }
}

// ---------------------------------------------------------------------------
// Modifiers
// ---------------------------------------------------------------------------

/// Whether these are the keys and bits that a layout has for modifier names.
pub open spec fn are_modifiers(
    table: KeyTable,
    names: Seq<Seq<char>>,
    held: Seq<HeldModifier>,
) -> bool {
    &&& held.len() == names.len()
    &&& forall|i: int|
        0 <= i < names.len() ==> is_modifier(table, #[trigger] names[i], held[i])
}

/// Whether this is the key and the bit that a layout has for a modifier name.
pub open spec fn is_modifier(table: KeyTable, name: Seq<char>, held: HeldModifier) -> bool {
    &&& crate::typing::modifier_of(name) matches Some((key, modifier))
    &&& crate::keymap::keysym_of(key) matches Some(keysym)
    &&& table.keycode(keysym) == Some(held.keycode)
    &&& table.index_of(modifier) < 32
    &&& held.mask == 1u32 << table.index_of(modifier)
}

/// The bits of all held modifiers are exactly those of each of them.
pub proof fn law_held_bits_are_those_of_the_keys(held: Seq<HeldModifier>, bit: u32)
    ensures
        (exists|i: int| 0 <= i < held.len() && (#[trigger] held[i]).mask & bit != 0)
            <==> crate::typing::held_mask(held) & bit != 0,
    decreases held.len(),
{
    if held.len() == 0 {
        assert(0u32 & bit == 0) by (bit_vector);
    } else {
        let front = held.drop_last();
        let last = held.last();
        law_held_bits_are_those_of_the_keys(front, bit);
        let below = crate::typing::held_mask(front);
        let mask = last.mask;
        assert((below | mask) & bit != 0 <==> below & bit != 0 || mask & bit != 0) by (bit_vector);
        if mask & bit != 0 {
            assert(held[held.len() - 1] == last);
        }
        if below & bit != 0 {
            let i = choose|i: int| 0 <= i < front.len() && (#[trigger] front[i]).mask & bit != 0;
            assert(held[i] == front[i]);
        }
        if exists|i: int| 0 <= i < held.len() && (#[trigger] held[i]).mask & bit != 0 {
            let i = choose|i: int| 0 <= i < held.len() && (#[trigger] held[i]).mask & bit != 0;
            if i < held.len() - 1 {
                assert(front[i] == held[i]);
            }
        }
    }
}

/// What pressing modifiers tells: each key goes down in turn, and after each
/// all that are held so far are announced.
pub open spec fn pressing(held: Seq<HeldModifier>) -> Seq<KeyboardEvent> {
    Seq::new(
        held.len(),
        |i: int|
            seq![
                down(held[i].keycode),
                KeyboardEvent::Held { mask: crate::typing::held_mask(held.take(i + 1)) },
            ],
    ).flatten()
}

/// What letting go of modifiers tells: each key goes up, the last one first,
/// and after each those that are still held are announced.
pub open spec fn releasing(held: Seq<HeldModifier>, depressed: u32) -> Seq<KeyboardEvent> {
    Seq::new(
        held.len(),
        |i: int|
            seq![
                up(held[held.len() - 1 - i].keycode),
                KeyboardEvent::Held {
                    mask: depressed & !crate::typing::held_mask(held.skip(held.len() - 1 - i)),
                },
            ],
    ).flatten()
}

/// Modifiers that the layout has are all pressed, in the order of their
/// names; nothing is refused, and nothing but the keyboard focus changes.
pub proof fn law_named_modifiers_are_pressed(
    input: InputState,
    table: KeyTable,
    names: Seq<Seq<char>>,
    held: Seq<HeldModifier>,
    keyboard: u64,
    surface: u64,
)
    requires
        input.keyboard == Some(keyboard),
        are_modifiers(table, names, held),
    ensures
        ({
            let press = PressView::start(PlannerView::start(input, Some(surface))).press_each(
                table,
                names,
            );
            &&& types_on(press.plan, keyboard, surface)
            &&& press.refusal is None
            &&& press.held == held
            &&& press.depressed == crate::typing::held_mask(held)
            &&& press.plan.input == (if names.len() == 0 {
                input
            } else {
                focused_on(input, surface)
            })
            &&& keyboard_events(press.plan.steps, keyboard) == pressing(held)
        }),
    decreases names.len(),
{
    let begun = PressView::start(PlannerView::start(input, Some(surface)));
    let parts = Seq::new(
        held.len(),
        |i: int|
            seq![
                down(held[i].keycode),
                KeyboardEvent::Held { mask: crate::typing::held_mask(held.take(i + 1)) },
            ],
    );
    crate::plan_laws::lemma_joined(parts);
    if names.len() == 0 {
        assert(held =~= Seq::empty());
        assert(keyboard_events(begun.plan.steps, keyboard) =~= pressing(held));
    } else {
        let front = names.drop_last();
        let most = held.drop_last();
        assert(are_modifiers(table, front, most)) by {
            assert forall|i: int| 0 <= i < front.len() implies is_modifier(
                table,
                #[trigger] front[i],
                most[i],
            ) by {
                assert(front[i] == names[i]);
            }
        }
        law_named_modifiers_are_pressed(input, table, front, most, keyboard, surface);
        let before = begun.press_each(table, front);
        let last = held[held.len() - 1];
        assert(names[names.len() - 1] == names.last());
        assert(is_modifier(table, names.last(), last));
        let after = begun.press_each(table, names);
        assert(after == before.press(table, names.last()));
        lemma_key_told(before.plan, last.keycode, true, keyboard, surface);
        let keyed = before.plan.key(last.keycode, true);
        lemma_mask_told(keyed, before.depressed | last.mask, keyboard, surface);
        assert(held.take(held.len() as int) =~= held);
        assert(held.last() == last);
        let before_parts = Seq::new(
            most.len(),
            |i: int|
                seq![
                    down(most[i].keycode),
                    KeyboardEvent::Held { mask: crate::typing::held_mask(most.take(i + 1)) },
                ],
        );
        assert forall|i: int| 0 <= i < most.len() implies #[trigger] parts.drop_last()[i]
            == before_parts[i] by {
            assert(most.take(i + 1) =~= held.take(i + 1));
            assert(most[i] == held[i]);
        }
        assert(parts.drop_last() =~= before_parts);
        assert(after.held =~= held);
        assert(keyboard_events(after.plan.steps, keyboard) =~= pressing(held));
    }
}

/// A name that is no modifier, or one whose key the layout lacks, is refused
/// with the reason, and nothing more is pressed; one without a bit in the
/// layout ends the plan.
pub proof fn law_other_modifiers_are_refused(press: PressView, table: KeyTable, name: Seq<char>)
    ensures
        press.plan.failed || press.refusal is Some ==> press.press(table, name) == press,
        !press.plan.failed && press.refusal is None && crate::typing::modifier_of(name) is None
            ==> press.press(table, name) == (PressView {
            refusal: Some("unknown modifier '"@ + name + "'"@),
            ..press
        }),
        !press.plan.failed && press.refusal is None ==> (crate::typing::modifier_of(
            name,
        ) matches Some((key, modifier)) ==> (crate::keymap::keysym_of(key) matches Some(keysym)
            ==> {
            &&& table.keycode(keysym) is None ==> press.press(table, name) == (PressView {
                refusal: Some("keyboard layout has no keycode for '"@ + name + "'"@),
                ..press
            })
            &&& table.keycode(keysym) is Some && table.index_of(modifier) >= 32 ==> {
                let after = press.press(table, name);
                &&& after.plan.failed
                &&& after.held == press.held
                &&& after.plan.steps == press.plan.steps.push(
                    StepView::Fail(
                        crate::keytable::mask_error(table.index_of(modifier), modifier),
                    ),
                )
            }
        })),
{
}

proof fn lemma_releasing(
    plan: PlannerView,
    held: Seq<HeldModifier>,
    depressed: u32,
    keyboard: u64,
    surface: u64,
)
    requires
        types_on(plan, keyboard, surface),
    ensures
        ({
            let after = plan.released(held, depressed);
            &&& types_on(after, keyboard, surface)
            &&& keyboard_events(after.steps, keyboard) == keyboard_events(plan.steps, keyboard)
                + releasing(held, depressed)
        }),
    decreases held.len(),
{
    let told = keyboard_events(plan.steps, keyboard);
    let parts = Seq::new(
        held.len(),
        |i: int|
            seq![
                up(held[held.len() - 1 - i].keycode),
                KeyboardEvent::Held {
                    mask: depressed & !crate::typing::held_mask(held.skip(held.len() - 1 - i)),
                },
            ],
    );
    if held.len() == 0 {
        assert(told + releasing(held, depressed) =~= told);
    } else {
        let last = held.last();
        let most = held.drop_last();
        let mask = last.mask;
        let rest = depressed & !mask;
        lemma_key_told(plan, last.keycode, false, keyboard, surface);
        let keyed = plan.key(last.keycode, false);
        lemma_mask_told(keyed, rest, keyboard, surface);
        lemma_releasing(keyed.modifiers(rest), most, rest, keyboard, surface);
        let after_parts = Seq::new(
            most.len(),
            |i: int|
                seq![
                    up(most[most.len() - 1 - i].keycode),
                    KeyboardEvent::Held {
                        mask: rest & !crate::typing::held_mask(most.skip(most.len() - 1 - i)),
                    },
                ],
        );
        assert forall|i: int| 0 <= i < most.len() implies #[trigger] parts.drop_first()[i]
            == after_parts[i] by {
            let at = most.len() - 1 - i;
            assert(held.skip(at).drop_last() =~= most.skip(at));
            assert(held.skip(at).last() == last);
            assert(held[at] == most[at]);
            let below = crate::typing::held_mask(most.skip(at));
            assert((depressed & !mask) & !below == depressed & !(below | mask)) by (bit_vector);
            assert(parts.drop_first()[i] == parts[i + 1]);
        }
        assert(parts.drop_first() =~= after_parts);
        let one = held.skip(held.len() - 1);
        assert(one.drop_last() =~= Seq::empty());
        assert(one.last() == last);
        assert(crate::typing::held_mask(one.drop_last()) == 0);
        assert(crate::typing::held_mask(one) == 0u32 | mask);
        assert(depressed & !mask == depressed & !(0u32 | mask)) by (bit_vector);
        assert(held.len() - 1 - 0 == held.len() - 1);
        assert(parts.first() == parts[0]);
        assert(parts.first() =~= seq![up(last.keycode), KeyboardEvent::Held { mask: rest }]);
        assert(parts.flatten() =~= parts.first() + parts.drop_first().flatten());
        let after = plan.released(held, depressed);
        assert(after == keyed.modifiers(rest).released(most, rest));
        assert(keyboard_events(after.steps, keyboard) =~= told + releasing(held, depressed));
    }
}

/// Held modifiers are all let go, in the reverse of the order in which they
/// were pressed, down to none.
pub proof fn law_held_modifiers_are_let_go(
    input: InputState,
    held: Seq<HeldModifier>,
    keyboard: u64,
    surface: u64,
)
    requires
        input.keyboard == Some(keyboard),
    ensures
        ({
            let mask = crate::typing::held_mask(held);
            let after = PlannerView::start(input, Some(surface)).released(held, mask);
            &&& !after.failed
            &&& keyboard_events(after.steps, keyboard) == releasing(held, mask)
        }),
{
    let begun = PlannerView::start(input, Some(surface));
    let mask = crate::typing::held_mask(held);
    lemma_releasing(begun, held, mask, keyboard, surface);
    assert(keyboard_events(begun.steps, keyboard) + releasing(held, mask) =~= releasing(held, mask));
}

/// Modifiers need a layout: without one the plan ends with the reason. No
/// modifiers need none.
pub proof fn law_modifiers_need_a_layout(
    press: PressView,
    names: Seq<Seq<char>>,
    reason: String,
    table: KeyTable,
)
    requires
        !press.plan.failed,
    ensures
        names.len() == 0 ==> press.press_all(Layout::Invalid, names) == press && press.press_all(
            Layout::Unreadable(reason),
            names,
        ) == press && press.press_all(Layout::Ready(table), names) == press,
        names.len() > 0 ==> press.press_all(Layout::Unreadable(reason), names).plan.steps
            == press.plan.steps.push(StepView::Fail(reason@)) && press.press_all(
            Layout::Unreadable(reason),
            names,
        ).plan.failed,
        names.len() > 0 ==> press.press_all(Layout::Invalid, names).plan.steps
            == press.plan.steps.push(StepView::Fail("failed to parse the app's keymap"@))
            && press.press_all(Layout::Invalid, names).plan.failed,
        names.len() > 0 ==> press.press_all(Layout::Ready(table), names) == press.press_each(
            table,
            names,
        ),
{
}

/// The keys among keyboard events, with their states.
pub open spec fn keys_in(events: Seq<KeyboardEvent>) -> Seq<(u32, u32)>
    decreases events.len(),
{
    if events.len() == 0 {
        Seq::empty()
    } else {
        let before = keys_in(events.drop_last());
        match events.last() {
            KeyboardEvent::Key { key, state } => before.push((key, state)),
            _ => before,
        }
    }
}

proof fn lemma_keys_pushed(events: Seq<KeyboardEvent>, event: KeyboardEvent)
    ensures
        keys_in(events.push(event)) == (match event {
            KeyboardEvent::Key { key, state } => keys_in(events).push((key, state)),
            _ => keys_in(events),
        }),
{
    assert(events.push(event).drop_last() =~= events);
    assert(events.push(event).last() == event);
}

proof fn lemma_keys_of_tap(keycode: u32)
    ensures
        keys_in(seq![down(keycode), wait(20), up(keycode)]) == seq![
            (crate::plan::evdev_keycode(keycode), 1u32),
            (crate::plan::evdev_keycode(keycode), 0u32),
        ],
{
    let none = Seq::<KeyboardEvent>::empty();
    let one = none.push(down(keycode));
    let two = one.push(wait(20));
    lemma_keys_pushed(none, down(keycode));
    lemma_keys_pushed(one, wait(20));
    lemma_keys_pushed(two, up(keycode));
    assert(seq![down(keycode), wait(20), up(keycode)] =~= two.push(up(keycode)));
    assert(keys_in(two.push(up(keycode))) =~= seq![
        (crate::plan::evdev_keycode(keycode), 1u32),
        (crate::plan::evdev_keycode(keycode), 0u32),
    ]);
}

/// Whether every key event among steps has the form of one.
pub open spec fn are_key_events(steps: Seq<StepView>, keyboard: u64) -> bool {
    forall|i: int|
        0 <= i < steps.len() && crate::input_laws::key_change(#[trigger] steps[i], keyboard) is Some
            ==> keyboard_event(steps[i], keyboard) is Some && keyboard_event(
            steps[i],
            keyboard,
        ).unwrap() is Key
}

proof fn lemma_changes_are_key_events(steps: Seq<StepView>, keyboard: u64)
    requires
        are_key_events(steps, keyboard),
    ensures
        crate::input_laws::key_changes(steps, keyboard) == keys_in(
            keyboard_events(steps, keyboard),
        ),
    decreases steps.len(),
{
    if steps.len() > 0 {
        let front = steps.drop_last();
        assert forall|i: int|
            0 <= i < front.len() && crate::input_laws::key_change(#[trigger] front[i], keyboard)
                is Some implies keyboard_event(front[i], keyboard) is Some && keyboard_event(
            front[i],
            keyboard,
        ).unwrap() is Key by {
            assert(front[i] == steps[i]);
        }
        lemma_changes_are_key_events(front, keyboard);
        assert(steps[steps.len() - 1] == steps.last());
        let before = keyboard_events(front, keyboard);
        match keyboard_event(steps.last(), keyboard) {
            Some(event) => {
                lemma_keys_pushed(before, event);
            },
            None => {},
        }
    }
}

/// Modifiers that could not all be pressed are let go again, and the reason
/// is what the act fails with; where pressing itself failed, nothing else
/// happens. This holds of combinations and of clicks alike.
pub proof fn law_refused_modifiers_are_let_go(
    input: InputState,
    surface: Option<u64>,
    layout: Layout,
    names: Seq<Seq<char>>,
    key: Seq<char>,
    x: i32,
    y: i32,
    button: u32,
    count: u32,
)
    ensures
        ({
            let press = PressView::start(PlannerView::start(input, surface)).press_all(
                layout,
                names,
            );
            let let_go = PlannerView::start(press.plan.input, surface).released(
                press.held,
                crate::typing::held_mask(press.held),
            ).steps;
            let click = crate::typing::modified_click_plan(
                input,
                surface,
                layout,
                names,
                x,
                y,
                button,
                count,
            );
            let combination = crate::typing::combination_plan(
                input,
                surface,
                layout,
                names.push(key),
            );
            &&& press.plan.failed ==> click.open == press.plan.steps && click.lead.len() == 0
                && click.cycles == 0 && click.close.len() == 0
            &&& press.plan.failed ==> combination.open == press.plan.steps && combination.lead.len()
                == 0 && combination.cycles == 0 && combination.close.len() == 0
            &&& !press.plan.failed ==> click.open == press.plan.steps && click.close == let_go
            &&& !press.plan.failed && press.refusal is Some ==> click.lead == seq![
                StepView::Fail(press.refusal.unwrap()),
            ] && click.cycles == 0 && combination.lead == click.lead && combination.open
                == click.open && combination.close == click.close && combination.cycles == 0
        }),
{
    let press = PressView::start(PlannerView::start(input, surface)).press_all(layout, names);
    assert(names.push(key).drop_last() =~= names);
    if !press.plan.failed && press.refusal is Some {
        let after = PlannerView::start(press.plan.input, surface);
        assert(after.fail(press.refusal.unwrap()).steps =~= seq![
            StepView::Fail(press.refusal.unwrap()),
        ]);
    }
}

// ---------------------------------------------------------------------------
// Combinations
// ---------------------------------------------------------------------------

/// A combination presses its modifiers, then presses and releases the key of
/// its last name, whatever name that is, and lets go of the modifiers.
pub proof fn law_combinations_tap_their_key(
    input: InputState,
    table: KeyTable,
    names: Seq<Seq<char>>,
    held: Seq<HeldModifier>,
    keysym: u32,
    keycode: u32,
    keyboard: u64,
    surface: u64,
)
    requires
        input.keyboard == Some(keyboard),
        names.len() > 0,
        are_modifiers(table, names.drop_last(), held),
        crate::keymap::keysym_of(names.last()) == Some(keysym),
        table.keycode(keysym) == Some(keycode),
    ensures
        ({
            let plan = crate::typing::combination_plan(
                input,
                Some(surface),
                Layout::Ready(table),
                names,
            );
            &&& keyboard_events(plan.open, keyboard) == pressing(held)
            &&& keyboard_events(plan.lead, keyboard) == seq![
                down(keycode),
                wait(20),
                up(keycode),
            ]
            &&& crate::input_laws::key_changes(plan.lead, keyboard) == seq![
                (crate::plan::evdev_keycode(keycode), 1u32),
                (crate::plan::evdev_keycode(keycode), 0u32),
            ]
            &&& plan.lead == (if names.len() > 1 {
                Seq::empty()
            } else {
                crate::plan_laws::keyboard_approach(input.keyboard_focus, keyboard, surface)
            }) + seq![
                crate::plan_laws::key_event(keyboard, kernel_key(keycode), 1),
                StepView::Sleep { millis: 20 },
                crate::plan_laws::key_event(keyboard, kernel_key(keycode), 0),
            ]
            &&& keyboard_events(plan.close, keyboard) == releasing(
                held,
                crate::typing::held_mask(held),
            )
            &&& plan.cycles == 0
        }),
{
    let layout = Layout::Ready(table);
    let modifiers = names.drop_last();
    let begun = PressView::start(PlannerView::start(input, Some(surface)));
    let press = begun.press_all(layout, modifiers);
    law_named_modifiers_are_pressed(input, table, modifiers, held, keyboard, surface);
    assert(press == begun.press_each(table, modifiers));
    let after = PlannerView::start(press.plan.input, Some(surface));
    law_held_modifiers_are_let_go(press.plan.input, held, keyboard, surface);
    let plan = crate::typing::combination_plan(input, Some(surface), layout, names);
    let focus = press.plan.input.keyboard_focus;
    let approach = crate::plan_laws::keyboard_approach(focus, keyboard, surface);
    crate::plan_laws::law_key_events_have_their_form(after, keyboard, surface, keycode, true, 0);
    let pressed = after.key(keycode, true).sleep(20);
    crate::plan_laws::law_key_events_have_their_form(pressed, keyboard, surface, keycode, false, 0);
    let first = crate::plan_laws::key_event(keyboard, kernel_key(keycode), 1);
    let second = crate::plan_laws::key_event(keyboard, kernel_key(keycode), 0);
    let pause = StepView::Sleep { millis: 20 };
    assert(plan.lead =~= approach + seq![first, pause, second]);
    lemma_tapped_key(after, keycode, 20, keyboard, surface);
    assert(keyboard_events(plan.lead, keyboard) =~= seq![down(keycode), wait(20), up(keycode)]);
    lemma_changes_are_key_events(plan.lead, keyboard);
    lemma_keys_of_tap(keycode);
    if names.len() > 1 {
        assert(approach =~= Seq::empty());
    }
}

/// A combination whose key is not known, or is not on the layout, says so,
/// and lets go of its modifiers all the same; without a name there is nothing
/// to press.
pub proof fn law_other_combinations_fail(
    input: InputState,
    table: KeyTable,
    names: Seq<Seq<char>>,
    held: Seq<HeldModifier>,
    keyboard: u64,
    surface: u64,
)
    requires
        input.keyboard == Some(keyboard),
        names.len() > 0,
        are_modifiers(table, names.drop_last(), held),
    ensures
        ({
            let plan = crate::typing::combination_plan(
                input,
                Some(surface),
                Layout::Ready(table),
                names,
            );
            let keysym = crate::keymap::keysym_of(names.last());
            &&& keysym is None ==> plan.lead == seq![
                StepView::Fail("unknown key '"@ + names.last() + "'"@),
            ]
            &&& keysym is Some && table.keycode(keysym.unwrap()) is None ==> plan.lead == seq![
                StepView::Fail("keyboard layout has no keycode for '"@ + names.last() + "'"@),
            ]
            &&& keyboard_events(plan.open, keyboard) == pressing(held)
            &&& keyboard_events(plan.close, keyboard) == releasing(
                held,
                crate::typing::held_mask(held),
            )
        }),
        crate::typing::combination_plan(
            input,
            Some(surface),
            Layout::Ready(table),
            Seq::empty(),
        ).open == seq![StepView::Fail("empty key"@)],
{
    let layout = Layout::Ready(table);
    let modifiers = names.drop_last();
    let begun = PressView::start(PlannerView::start(input, Some(surface)));
    let press = begun.press_all(layout, modifiers);
    law_named_modifiers_are_pressed(input, table, modifiers, held, keyboard, surface);
    assert(press == begun.press_each(table, modifiers));
    law_held_modifiers_are_let_go(press.plan.input, held, keyboard, surface);
    let plan = crate::typing::combination_plan(input, Some(surface), layout, names);
    let keysym = crate::keymap::keysym_of(names.last());
    if keysym is None {
        assert(plan.lead =~= seq![StepView::Fail("unknown key '"@ + names.last() + "'"@)]);
    } else if table.keycode(keysym.unwrap()) is None {
        assert(plan.lead =~= seq![
            StepView::Fail("keyboard layout has no keycode for '"@ + names.last() + "'"@),
        ]);
    }
    let nothing = crate::typing::combination_plan(input, Some(surface), layout, Seq::empty());
    assert(nothing.open =~= seq![StepView::Fail("empty key"@)]);
}

/// A click with modifiers is the click itself, with the modifiers pressed
/// before it and let go after it.
pub proof fn law_modified_clicks_are_clicks(
    input: InputState,
    table: KeyTable,
    names: Seq<Seq<char>>,
    held: Seq<HeldModifier>,
    x: i32,
    y: i32,
    button: u32,
    count: u32,
    keyboard: u64,
    surface: u64,
)
    requires
        input.keyboard == Some(keyboard),
        are_modifiers(table, names, held),
    ensures
        ({
            let plan = crate::typing::modified_click_plan(
                input,
                Some(surface),
                Layout::Ready(table),
                names,
                x,
                y,
                button,
                count,
            );
            let click = crate::inject::click_plan(input, Some(surface), x, y, button, count);
            &&& keyboard_events(plan.open, keyboard) == pressing(held)
            &&& plan.lead == click.lead
            &&& plan.cycle == click.cycle
            &&& plan.cycles == click.cycles
            &&& keyboard_events(plan.close, keyboard) == releasing(
                held,
                crate::typing::held_mask(held),
            )
        }),
{
    let layout = Layout::Ready(table);
    let begun = PressView::start(PlannerView::start(input, Some(surface)));
    let press = begun.press_all(layout, names);
    law_named_modifiers_are_pressed(input, table, names, held, keyboard, surface);
    assert(press == begun.press_each(table, names));
    law_held_modifiers_are_let_go(press.plan.input, held, keyboard, surface);
    let later = press.plan.input;
    crate::plan_laws::law_clicks_press_and_release(input, Some(surface), x, y, button, count);
    crate::plan_laws::law_clicks_press_and_release(later, Some(surface), x, y, button, count);
    assert(later.pointer == input.pointer && later.pointer_focus == input.pointer_focus);
    let plan = crate::typing::modified_click_plan(
        input,
        Some(surface),
        layout,
        names,
        x,
        y,
        button,
        count,
    );
    let click = crate::inject::click_plan(input, Some(surface), x, y, button, count);
    let same = crate::inject::click_plan(later, Some(surface), x, y, button, count);
    assert(plan.lead == same.lead);
    assert(plan.cycle == same.cycle);
    assert(plan.cycles == same.cycles);
    if input.pointer is None {
        assert(plan.cycle =~= click.cycle);
    }
}

} // verus!
