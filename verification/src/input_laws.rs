//! What holds of injected input as a whole.
use crate::inject::PlanView;
use crate::input::InputState;
use crate::keytable::KeyTable;
use crate::plan::{
    EventArg, PlannerView, StepView, KBD_KEY, KBD_MODIFIERS, KEY_PRESSED, KEY_RELEASED,
};
use crate::run::{CommandView, Part, RunView};
use crate::typing::{HeldModifier, Layout, PressView};
use vstd::prelude::*;

verus! {

// ---------------------------------------------------------------------------
// Modifiers
// ---------------------------------------------------------------------------

/// The key that a step presses or releases on a keyboard, with its new state.
pub open spec fn key_change(step: StepView, keyboard: u64) -> Option<(u32, u32)> {
    match step {
        StepView::Send { target, opcode, serial: _, args } => if target == keyboard && opcode
            == KBD_KEY && args.len() == 3 {
            match (args[1], args[2]) {
                (EventArg::Uint(key), EventArg::Uint(state)) => Some((key, state)),
                _ => None,
            }
        } else {
            None
        },
        _ => None,
    }
}

/// The modifiers that a step announces on a keyboard.
pub open spec fn mask_announced(step: StepView, keyboard: u64) -> Option<u32> {
    match step {
        StepView::Send { target, opcode, serial: _, args } => if target == keyboard && opcode
            == KBD_MODIFIERS && args.len() == 4 {
            match args[0] {
                EventArg::Uint(mask) => Some(mask),
                _ => None,
            }
        } else {
            None
        },
        _ => None,
    }
}

/// The keys that steps press and release, in order.
pub open spec fn key_changes(steps: Seq<StepView>, keyboard: u64) -> Seq<(u32, u32)>
    decreases steps.len(),
{
    if steps.len() == 0 {
        Seq::empty()
    } else {
        match key_change(steps.last(), keyboard) {
            Some(change) => key_changes(steps.drop_last(), keyboard).push(change),
            None => key_changes(steps.drop_last(), keyboard),
        }
    }
}

/// The modifiers that steps announce last.
pub open spec fn last_mask(steps: Seq<StepView>, keyboard: u64) -> Option<u32>
    decreases steps.len(),
{
    if steps.len() == 0 {
        None
    } else {
        match mask_announced(steps.last(), keyboard) {
            Some(mask) => Some(mask),
            None => last_mask(steps.drop_last(), keyboard),
        }
    }
}

/// Held modifiers, as key changes.
pub open spec fn presses(held: Seq<HeldModifier>) -> Seq<(u32, u32)> {
    Seq::new(
        held.len(),
        |i: int| (crate::plan::evdev_keycode(held[i].keycode), KEY_PRESSED),
    )
}

/// Held modifiers, as key changes that let go of them, the last one first.
pub open spec fn releases(held: Seq<HeldModifier>) -> Seq<(u32, u32)> {
    Seq::new(
        held.len(),
        |i: int|
            (crate::plan::evdev_keycode(held[held.len() - 1 - i].keycode), KEY_RELEASED),
    )
}

/// Whether a plan can press keys.
pub open spec fn can_type(plan: PlannerView) -> bool {
    !plan.failed && plan.input.keyboard is Some && plan.surface is Some
}

proof fn lemma_step(plan: PlannerView, step: StepView, keyboard: u64)
    requires
        !plan.failed,
    ensures
        key_changes(plan.step(step).steps, keyboard) == (match key_change(step, keyboard) {
            Some(change) => key_changes(plan.steps, keyboard).push(change),
            None => key_changes(plan.steps, keyboard),
        }),
        last_mask(plan.step(step).steps, keyboard) == (match mask_announced(step, keyboard) {
            Some(mask) => Some(mask),
            None => last_mask(plan.steps, keyboard),
        }),
{
    assert(plan.steps.push(step).drop_last() =~= plan.steps);
    assert(plan.steps.push(step).last() == step);
}

proof fn lemma_focus(plan: PlannerView, keyboard: u64, surface: u64)
    requires
        can_type(plan),
        plan.input.keyboard == Some(keyboard),
        plan.surface == Some(surface),
    ensures
        ({
            let after = plan.keyboard_on(keyboard, surface);
            &&& can_type(after)
            &&& after.input.keyboard == plan.input.keyboard
            &&& after.surface == plan.surface
            &&& key_changes(after.steps, keyboard) == key_changes(plan.steps, keyboard)
            &&& last_mask(after.steps, keyboard) == last_mask(plan.steps, keyboard)
        }),
{
    if plan.input.keyboard_focus != Some(surface) {
        let left = plan.keyboard_left(keyboard);
        if plan.input.keyboard_focus is Some {
            lemma_step(
                plan,
                StepView::Send {
                    target: keyboard,
                    opcode: crate::plan::KBD_LEAVE,
                    serial: true,
                    args: seq![EventArg::Object(plan.input.keyboard_focus.unwrap())],
                },
                keyboard,
            );
        }
        let enter = StepView::Send {
            target: keyboard,
            opcode: crate::plan::KBD_ENTER,
            serial: true,
            args: seq![EventArg::Object(surface), EventArg::NoKeys],
        };
        lemma_step(left, enter, keyboard);
        lemma_step(left.step(enter), StepView::KeyboardOn(surface), keyboard);
    }
}

proof fn lemma_key(plan: PlannerView, keycode: u32, pressed: bool, keyboard: u64)
    requires
        can_type(plan),
        plan.input.keyboard == Some(keyboard),
    ensures
        ({
            let after = plan.key(keycode, pressed);
            let state = if pressed {
                KEY_PRESSED
            } else {
                KEY_RELEASED
            };
            &&& can_type(after)
            &&& after.input.keyboard == plan.input.keyboard
            &&& after.surface == plan.surface
            &&& key_changes(after.steps, keyboard) == key_changes(plan.steps, keyboard).push(
                (crate::plan::evdev_keycode(keycode), state),
            )
            &&& last_mask(after.steps, keyboard) == last_mask(plan.steps, keyboard)
        }),
{
    let surface = plan.surface.unwrap();
    lemma_focus(plan, keyboard, surface);
    let state = if pressed {
        KEY_PRESSED
    } else {
        KEY_RELEASED
    };
    let args = seq![
        EventArg::Now,
        EventArg::Uint(crate::plan::evdev_keycode(keycode)),
        EventArg::Uint(state),
    ];
    lemma_step(
        plan.keyboard_on(keyboard, surface),
        StepView::Send { target: keyboard, opcode: KBD_KEY, serial: true, args },
        keyboard,
    );
}

proof fn lemma_modifiers(plan: PlannerView, mask: u32, keyboard: u64)
    requires
        can_type(plan),
        plan.input.keyboard == Some(keyboard),
    ensures
        ({
            let after = plan.modifiers(mask);
            &&& can_type(after)
            &&& after.input.keyboard == plan.input.keyboard
            &&& after.surface == plan.surface
            &&& key_changes(after.steps, keyboard) == key_changes(plan.steps, keyboard)
            &&& last_mask(after.steps, keyboard) == Some(mask)
        }),
{
    let args = seq![
        EventArg::Uint(mask),
        EventArg::Uint(0),
        EventArg::Uint(0),
        EventArg::Uint(0),
    ];
    lemma_step(
        plan,
        StepView::Send { target: keyboard, opcode: KBD_MODIFIERS, serial: true, args },
        keyboard,
    );
}

proof fn lemma_pressed(press: PressView, table: KeyTable, names: Seq<Seq<char>>, keyboard: u64)
    requires
        press.held.len() == 0,
        press.depressed == 0,
        !press.plan.failed,
        press.plan.steps.len() == 0,
        press.plan.input.keyboard == Some(keyboard),
        press.plan.surface is Some,
    ensures
        ({
            let after = press.press_each(table, names);
            !after.plan.failed ==> {
                &&& can_type(after.plan)
                &&& after.plan.input.keyboard == Some(keyboard)
                &&& after.depressed == crate::typing::held_mask(after.held)
                &&& key_changes(after.plan.steps, keyboard) == presses(after.held)
                &&& last_mask(after.plan.steps, keyboard) == (if after.held.len() == 0 {
                    None
                } else {
                    Some(after.depressed)
                })
            }
        }),
    decreases names.len(),
{
    if names.len() == 0 {
        assert(presses(press.held) =~= Seq::empty());
    } else {
        lemma_pressed(press, table, names.drop_last(), keyboard);
        let before = press.press_each(table, names.drop_last());
        let after = before.press(table, names.last());
        if !after.plan.failed && after.held != before.held {
            let held = after.held.last();
            lemma_key(before.plan, held.keycode, true, keyboard);
            lemma_modifiers(before.plan.key(held.keycode, true), after.depressed, keyboard);
            assert(after.held.drop_last() =~= before.held);
            assert(presses(after.held) =~= presses(before.held).push(
                (crate::plan::evdev_keycode(held.keycode), KEY_PRESSED),
            ));
        }
    }
}

proof fn lemma_released(
    plan: PlannerView,
    held: Seq<HeldModifier>,
    depressed: u32,
    keyboard: u64,
)
    requires
        can_type(plan),
        plan.input.keyboard == Some(keyboard),
    ensures
        ({
            let after = plan.released(held, depressed);
            &&& can_type(after)
            &&& key_changes(after.steps, keyboard) == key_changes(plan.steps, keyboard) + releases(
                held,
            )
            &&& held.len() > 0 ==> last_mask(after.steps, keyboard) == Some(
                depressed & !crate::typing::held_mask(held),
            )
            &&& held.len() == 0 ==> after == plan
        }),
    decreases held.len(),
{
    if held.len() == 0 {
        assert(key_changes(plan.steps, keyboard) + releases(held) =~= key_changes(
            plan.steps,
            keyboard,
        ));
    } else {
        let item = held.last();
        let rest = depressed & !item.mask;
        let keyed = plan.key(item.keycode, false);
        lemma_key(plan, item.keycode, false, keyboard);
        lemma_modifiers(keyed, rest, keyboard);
        let next = keyed.modifiers(rest);
        lemma_released(next, held.drop_last(), rest, keyboard);
        let tail = crate::typing::held_mask(held.drop_last());
        let mask = item.mask;
        assert((depressed & !mask) & !tail == depressed & !(tail | mask)) by (bit_vector);
        if held.len() == 1 {
            assert(depressed & !mask == depressed & !(0u32 | mask)) by (bit_vector);
        }
        let change = (crate::plan::evdev_keycode(item.keycode), KEY_RELEASED);
        assert(releases(held) =~= seq![change] + releases(held.drop_last()));
        assert(key_changes(plan.steps, keyboard).push(change) + releases(held.drop_last())
            =~= key_changes(plan.steps, keyboard) + releases(held));
    }
}

/// Modifiers that were pressed are let go again, all of them and in reverse
/// order, and the last thing that is announced is that none is held. Pressing
/// them announces all of them.
pub proof fn law_modifiers_are_released(
    input: InputState,
    surface: Option<u64>,
    table: KeyTable,
    names: Seq<Seq<char>>,
)
    requires
        input.keyboard is Some,
        surface is Some,
    ensures
        ({
            let keyboard = input.keyboard.unwrap();
            let press = PressView::start(PlannerView::start(input, surface)).press_each(table, names);
            let after = PlannerView::start(press.plan.input, surface).released(
                press.held,
                crate::typing::held_mask(press.held),
            );
            !press.plan.failed ==> {
                &&& key_changes(press.plan.steps, keyboard) == presses(press.held)
                &&& key_changes(after.steps, keyboard) == releases(press.held)
                &&& press.held.len() > 0 ==> last_mask(press.plan.steps, keyboard) == Some(
                    crate::typing::held_mask(press.held),
                ) && last_mask(after.steps, keyboard) == Some(0u32)
                &&& !after.failed
            }
        }),
{
    let keyboard = input.keyboard.unwrap();
    let press = PressView::start(PlannerView::start(input, surface)).press_each(table, names);
    lemma_pressed(PressView::start(PlannerView::start(input, surface)), table, names, keyboard);
    if !press.plan.failed {
        let begun = PlannerView::start(press.plan.input, surface);
        let mask = crate::typing::held_mask(press.held);
        lemma_released(begun, press.held, mask, keyboard);
        assert(mask & !mask == 0u32) by (bit_vector);
        assert(key_changes(begun.steps, keyboard) + releases(press.held) =~= releases(press.held));
    }
}

/// Whether steps leave no modifier announced.
pub open spec fn leaves_nothing_held(steps: Seq<StepView>, keyboard: u64) -> bool {
    last_mask(steps, keyboard) is None || last_mask(steps, keyboard) == Some(0u32)
}

proof fn lemma_pause(plan: PlannerView, millis: u64, keyboard: u64)
    requires
        can_type(plan),
    ensures
        can_type(plan.sleep(millis)),
        plan.sleep(millis).input == plan.input,
        plan.sleep(millis).surface == plan.surface,
        last_mask(plan.sleep(millis).steps, keyboard) == last_mask(plan.steps, keyboard),
{
    lemma_step(plan, StepView::Sleep { millis }, keyboard);
}

proof fn lemma_char_lets_go(
    plan: PlannerView,
    table: KeyTable,
    c: char,
    keysym: u32,
    keyboard: u64,
)
    requires
        can_type(plan),
        plan.input.keyboard == Some(keyboard),
        leaves_nothing_held(plan.steps, keyboard),
    ensures
        ({
            let after = plan.one_typed(table, c, keysym);
            !after.failed ==> {
                &&& can_type(after)
                &&& after.input.keyboard == Some(keyboard)
                &&& leaves_nothing_held(after.steps, keyboard)
            }
        }),
{
    reveal(PlannerView::one_typed);
    match crate::typing::special_keysym(c) {
        Some(special) => match table.keycode(special) {
            Some(keycode) => {
                lemma_key(plan, keycode, true, keyboard);
                lemma_key(plan.key(keycode, true), keycode, false, keyboard);
            },
            None => {},
        },
        None => match table.resolution(keysym) {
            None => {},
            Some(found) => {
                let shift = table.keycode(crate::keytable::KEYSYM_SHIFT_L);
                if !(found.needs_shift && shift is None) {
                    if found.needs_shift {
                        let down = plan.key(shift.unwrap(), true);
                        lemma_key(plan, shift.unwrap(), true, keyboard);
                        lemma_modifiers(down, table.shift_mask(), keyboard);
                        lemma_pause(down.modifiers(table.shift_mask()), 20, keyboard);
                    }
                    let pressed = if found.needs_shift {
                        plan.shift_held(table)
                    } else {
                        plan
                    };
                    lemma_key(pressed, found.keycode, true, keyboard);
                    let down = pressed.key(found.keycode, true);
                    lemma_pause(down, 20, keyboard);
                    lemma_key(down.sleep(20), found.keycode, false, keyboard);
                    let tapped = down.sleep(20).key(found.keycode, false);
                    if found.needs_shift {
                        lemma_pause(tapped, 20, keyboard);
                        lemma_key(tapped.sleep(20), shift.unwrap(), false, keyboard);
                        lemma_modifiers(tapped.sleep(20).key(shift.unwrap(), false), 0, keyboard);
                    }
                    let up = if found.needs_shift {
                        tapped.shift_let_go(table)
                    } else {
                        tapped
                    };
                    lemma_pause(up, 25, keyboard);
                } else {
                    let ended = plan.fail("layout needs Shift but no Shift keycode was found"@);
                    assert(ended.failed);
                    assert(plan.one_typed(table, c, keysym) == ended);
                }
            },
        },
    }
}

proof fn lemma_failed_typing_stays_failed(
    plan: PlannerView,
    table: KeyTable,
    c: char,
    keysym: u32,
)
    requires
        plan.failed,
    ensures
        plan.one_typed(table, c, keysym) == plan,
{
    reveal(PlannerView::one_typed);
}

/// Typing a text key by key leaves no modifier held: Shift is let go after
/// each character that needs it.
pub proof fn law_typing_leaves_nothing_held(
    input: InputState,
    surface: Option<u64>,
    table: KeyTable,
    chars: Seq<char>,
    keysyms: Seq<u32>,
)
    requires
        input.keyboard is Some,
        surface is Some,
    ensures
        ({
            let typed = PlannerView::start(input, surface).typed(table, chars, keysyms);
            !typed.failed ==> {
                &&& can_type(typed)
                &&& typed.input.keyboard == input.keyboard
                &&& leaves_nothing_held(typed.steps, input.keyboard.unwrap())
            }
        }),
    decreases chars.len(),
{
    if chars.len() > 0 {
        let before = PlannerView::start(input, surface).typed(
            table,
            chars.drop_last(),
            keysyms.drop_last(),
        );
        law_typing_leaves_nothing_held(
            input,
            surface,
            table,
            chars.drop_last(),
            keysyms.drop_last(),
        );
        if before.failed {
            lemma_failed_typing_stays_failed(before, table, chars.last(), keysyms.last());
        } else {
            lemma_char_lets_go(
                before,
                table,
                chars.last(),
                keysyms.last(),
                input.keyboard.unwrap(),
            );
        }
    }
}

// ---------------------------------------------------------------------------
// Runs
// ---------------------------------------------------------------------------

/// Whatever fails in the act, the closing part is performed from its
/// beginning; a failure anywhere else ends the run at once.
pub proof fn law_failed_act_still_closes(run: RunView, message: Seq<char>)
    requires
        run.part != Part::Over,
    ensures
        run.part == Part::Act ==> run.failed(message).part == Part::Close && run.failed(
            message,
        ).rest == run.close,
        run.part != Part::Act ==> run.failed(message).part == Part::Over,
{
}

/// The first failure of a run is its result, whatever fails later.
pub proof fn law_first_error_is_the_result(run: RunView, first: Seq<char>, later: Seq<char>)
    requires
        run.part != Part::Over,
        run.error is None,
    ensures
        run.failed(first).error == Some(first),
        run.failed(first).failed(later).error == Some(first),
{
}

/// A run that is over says so again and again, and changes nothing.
pub proof fn law_finished_runs_stay_finished(run: RunView, input: InputState, now: u32)
    requires
        run.part == Part::Over,
    ensures
        run.next(input, now) == (run, input, CommandView::Finished(run.error)),
{
}

/// What is still to be performed of a run that does not fail: the rest of its
/// part and the parts to come.
pub open spec fn outstanding(run: RunView) -> Seq<StepView> {
    match run.part {
        Part::Open => run.rest + run.act + run.close,
        Part::Act => run.rest + run.close,
        Part::Close => run.rest,
        Part::Over => Seq::empty(),
    }
}

/// Whether a step only changes what is known, and is not seen outside.
pub open spec fn is_silent(step: StepView) -> bool {
    step is NoteTime || step is PointerOn || step is KeyboardOn || step is SurfaceFocused
}

proof fn lemma_next_takes_steps(run: RunView, input: InputState, now: u32)
    requires
        forall|i: int| 0 <= i < outstanding(run).len() ==> !(#[trigger] outstanding(run)[i] is Fail),
    ensures
        ({
            let (after, _, command) = run.next(input, now);
            let steps = outstanding(run);
            let left = outstanding(after);
            if command is Finished {
                &&& left.len() == 0
                &&& forall|i: int| 0 <= i < steps.len() ==> is_silent(#[trigger] steps[i])
            } else {
                exists|count: int|
                    {
                        &&& 0 < count <= steps.len()
                        &&& left == #[trigger] steps.skip(count)
                        &&& !is_silent(steps[count - 1])
                        &&& forall|i: int| 0 <= i < count - 1 ==> is_silent(#[trigger] steps[i])
                    }
            }
        }),
    decreases run.parts_left(), run.rest.len(),
{
    let steps = outstanding(run);
    if run.part == Part::Over {
    } else if run.rest.len() == 0 {
        assert(outstanding(run.moved_on()) =~= steps);
        lemma_next_takes_steps(run.moved_on(), input, now);
    } else {
        let step = run.rest[0];
        assert(steps[0] == step);
        let after = run.stepped(now);
        assert(outstanding(after) =~= steps.skip(1));
        match crate::run::command_of(step, input, now, run.noted) {
            Some(command) => {
                assert(!is_silent(steps[1 - 1]));
                assert(outstanding(after) == steps.skip(1));
            },
            None => {
                let later = crate::run::input_after(input, step);
                assert forall|i: int| 0 <= i < outstanding(after).len() implies !(
                #[trigger] outstanding(after)[i] is Fail) by {
                    assert(outstanding(after)[i] == steps[i + 1]);
                }
                lemma_next_takes_steps(after, later, now);
                let (end, _, command) = after.next(later, now);
                let rest = outstanding(after);
                if command is Finished {
                    assert forall|i: int| 0 <= i < steps.len() implies is_silent(
                        #[trigger] steps[i],
                    ) by {
                        if i > 0 {
                            assert(rest[i - 1] == steps[i]);
                        }
                    }
                } else {
                    let count = choose|count: int|
                        {
                            &&& 0 < count <= rest.len()
                            &&& outstanding(end) == #[trigger] rest.skip(count)
                            &&& !is_silent(rest[count - 1])
                            &&& forall|i: int|
                                0 <= i < count - 1 ==> is_silent(#[trigger] rest[i])
                        };
                    assert(rest.skip(count) =~= steps.skip(count + 1));
                    assert(rest[count - 1] == steps[count]);
                    assert forall|i: int| 0 <= i < count implies is_silent(#[trigger] steps[i]) by {
                        if i > 0 {
                            assert(rest[i - 1] == steps[i]);
                        }
                    }
                    assert(outstanding(end) == steps.skip(count + 1));
                }
            },
        }
    }
}

/// A run without failures performs every step in order: each command is the
/// first step that is seen outside, what comes before it only changes what is
/// known, and a run is finished when nothing is left.
pub proof fn law_runs_perform_their_steps_in_order(run: RunView, input: InputState, now: u32)
    requires
        forall|i: int| 0 <= i < outstanding(run).len() ==> !(#[trigger] outstanding(run)[i] is Fail),
    ensures
        ({
            let (after, _, command) = run.next(input, now);
            let steps = outstanding(run);
            let left = outstanding(after);
            if command is Finished {
                &&& left.len() == 0
                &&& forall|i: int| 0 <= i < steps.len() ==> is_silent(#[trigger] steps[i])
            } else {
                exists|count: int|
                    {
                        &&& 0 < count <= steps.len()
                        &&& left == #[trigger] steps.skip(count)
                        &&& !is_silent(steps[count - 1])
                        &&& forall|i: int| 0 <= i < count - 1 ==> is_silent(#[trigger] steps[i])
                    }
            }
        }),
{
    lemma_next_takes_steps(run, input, now);
}

/// Each event with a serial gets the next one, and uses it up.
pub proof fn law_serials_are_consecutive(
    input: InputState,
    target: u64,
    opcode: u16,
    args: Seq<EventArg>,
    now: u32,
    noted: u32,
)
    ensures
        ({
            let step = StepView::Send { target, opcode, serial: true, args };
            &&& crate::run::command_of(step, input, now, noted) matches Some(
                CommandView::Send { target: sent_to, opcode: sent, args: sent_args },
            )
            &&& sent_to == target
            &&& sent == opcode
            &&& sent_args.len() == args.len() + 1
            &&& sent_args[0] == EventArg::Uint(input.next_serial)
            &&& crate::run::input_after(input, step).next_serial == input.next_serial.wrapping_add(1)
        }),
{
}

// ---------------------------------------------------------------------------
// Targets
// ---------------------------------------------------------------------------

/// Whether a step sends nothing but to the application's own input objects.
pub open spec fn is_own(input: InputState, step: StepView) -> bool {
    let own = |target: u64|
        input.pointer == Some(target) || input.keyboard == Some(target) || input.text_input == Some(
            target,
        );
    match step {
        StepView::Send { target, .. } => own(target),
        StepView::SendText { target, .. } => own(target),
        _ => true,
    }
}

/// Whether steps send nothing but to the application's own input objects.
pub open spec fn are_own(input: InputState, steps: Seq<StepView>) -> bool {
    forall|i: int| 0 <= i < steps.len() ==> is_own(input, #[trigger] steps[i])
}

/// Whether a plan in the making knows the same input objects and sends to
/// nothing else.
pub open spec fn keeps_to(plan: PlannerView, input: InputState) -> bool {
    &&& plan.input.pointer == input.pointer
    &&& plan.input.keyboard == input.keyboard
    &&& plan.input.text_input == input.text_input
    &&& are_own(input, plan.steps)
}

proof fn lemma_own_step(plan: PlannerView, step: StepView, input: InputState)
    requires
        keeps_to(plan, input),
        is_own(input, step),
    ensures
        keeps_to(plan.step(step), input),
{
}

proof fn lemma_own_send(
    plan: PlannerView,
    target: u64,
    opcode: u16,
    args: Seq<EventArg>,
    input: InputState,
)
    requires
        keeps_to(plan, input),
        input.pointer == Some(target) || input.keyboard == Some(target) || input.text_input == Some(
            target,
        ),
    ensures
        keeps_to(plan.send(target, opcode, args), input),
        keeps_to(plan.send_serial(target, opcode, args), input),
        keeps_to(plan.frame(target), input),
{
    lemma_own_step(plan, StepView::Send { target, opcode, serial: false, args }, input);
    lemma_own_step(plan, StepView::Send { target, opcode, serial: true, args }, input);
    lemma_own_step(
        plan,
        StepView::Send {
            target,
            opcode: crate::plan::PTR_FRAME,
            serial: false,
            args: Seq::empty(),
        },
        input,
    );
}

proof fn lemma_own_pause(plan: PlannerView, millis: u64, message: Seq<char>, input: InputState)
    requires
        keeps_to(plan, input),
    ensures
        keeps_to(plan.sleep(millis), input),
        keeps_to(plan.fail(message), input),
{
    lemma_own_step(plan, StepView::Sleep { millis }, input);
    lemma_own_step(plan, StepView::Fail(message), input);
}

proof fn lemma_own_pointer(
    plan: PlannerView,
    pointer: u64,
    surface: u64,
    x: i32,
    y: i32,
    button: u32,
    state: u32,
    input: InputState,
)
    requires
        keeps_to(plan, input),
        input.pointer == Some(pointer),
    ensures
        keeps_to(plan.pointer_on(pointer, surface, x, y), input),
        keeps_to(plan.motion(pointer, x, y), input),
        keeps_to(plan.button(pointer, button, state), input),
{
    if plan.input.pointer_focus is Some {
        let leave = seq![EventArg::Object(plan.input.pointer_focus.unwrap())];
        lemma_own_send(plan, pointer, crate::plan::PTR_LEAVE, leave, input);
        let gone = plan.send_serial(pointer, crate::plan::PTR_LEAVE, leave);
        lemma_own_send(gone, pointer, 0, Seq::empty(), input);
    }
    let left = plan.pointer_left(pointer);
    let enter = seq![EventArg::Object(surface), EventArg::Fixed(x), EventArg::Fixed(y)];
    lemma_own_send(left, pointer, crate::plan::PTR_ENTER, enter, input);
    let entered = left.send_serial(pointer, crate::plan::PTR_ENTER, enter);
    lemma_own_send(entered, pointer, 0, Seq::empty(), input);
    lemma_own_step(entered.frame(pointer), StepView::PointerOn(surface), input);
    let motion = seq![EventArg::Now, EventArg::Fixed(x), EventArg::Fixed(y)];
    lemma_own_send(plan, pointer, crate::plan::PTR_MOTION, motion, input);
    let press = seq![EventArg::Now, EventArg::Uint(button), EventArg::Uint(state)];
    lemma_own_send(plan, pointer, crate::plan::PTR_BUTTON, press, input);
    let pressed = plan.send_serial(pointer, crate::plan::PTR_BUTTON, press);
    lemma_own_send(pressed, pointer, 0, Seq::empty(), input);
}

proof fn lemma_own_keyboard(
    plan: PlannerView,
    keycode: u32,
    pressed: bool,
    mask: u32,
    input: InputState,
)
    requires
        keeps_to(plan, input),
    ensures
        keeps_to(plan.key(keycode, pressed), input),
        keeps_to(plan.modifiers(mask), input),
{
    lemma_own_pause(plan, 0, "the app has not created a wl_keyboard yet"@, input);
    lemma_own_pause(plan, 0, "the app has no surface to receive keyboard input"@, input);
    if input.keyboard is Some {
        let keyboard = input.keyboard.unwrap();
        let masks = seq![
            EventArg::Uint(mask),
            EventArg::Uint(0),
            EventArg::Uint(0),
            EventArg::Uint(0),
        ];
        lemma_own_send(plan, keyboard, KBD_MODIFIERS, masks, input);
        if plan.surface is Some {
            let surface = plan.surface.unwrap();
            if plan.input.keyboard_focus is Some {
                lemma_own_send(
                    plan,
                    keyboard,
                    crate::plan::KBD_LEAVE,
                    seq![EventArg::Object(plan.input.keyboard_focus.unwrap())],
                    input,
                );
            }
            let left = plan.keyboard_left(keyboard);
            let enter = seq![EventArg::Object(surface), EventArg::NoKeys];
            lemma_own_send(left, keyboard, crate::plan::KBD_ENTER, enter, input);
            let entered = left.send_serial(keyboard, crate::plan::KBD_ENTER, enter);
            lemma_own_step(entered, StepView::KeyboardOn(surface), input);
            let focused = plan.keyboard_on(keyboard, surface);
            let state = if pressed {
                KEY_PRESSED
            } else {
                KEY_RELEASED
            };
            let args = seq![
                EventArg::Now,
                EventArg::Uint(crate::plan::evdev_keycode(keycode)),
                EventArg::Uint(state),
            ];
            lemma_own_send(focused, keyboard, KBD_KEY, args, input);
        }
    }
}

proof fn lemma_own_click(plan: PlannerView, x: i32, y: i32, button: u32, input: InputState)
    requires
        keeps_to(plan, input),
    ensures
        keeps_to(plan.click_lead(x, y), input),
        input.pointer is Some ==> keeps_to(
            plan.click_once(input.pointer.unwrap(), button),
            input,
        ),
{
    lemma_own_pause(plan, 0, "the app has no surface to click in yet"@, input);
    lemma_own_pause(plan, 0, "the app has not created a wl_pointer yet"@, input);
    if input.pointer is Some {
        let pointer = input.pointer.unwrap();
        if plan.surface is Some {
            let surface = plan.surface.unwrap();
            lemma_own_pointer(plan, pointer, surface, x, y, button, KEY_PRESSED, input);
            let on = plan.pointer_on(pointer, surface, x, y);
            lemma_own_step(on, StepView::SurfaceFocused(surface), input);
            let focused = on.step(StepView::SurfaceFocused(surface));
            lemma_own_pointer(focused, pointer, surface, x, y, button, KEY_PRESSED, input);
            lemma_own_send(focused.motion(pointer, x, y), pointer, 0, Seq::empty(), input);
        }
        lemma_own_pointer(plan, pointer, 0, x, y, button, KEY_PRESSED, input);
        let pressed = plan.button(pointer, button, KEY_PRESSED);
        lemma_own_pause(pressed, 45, Seq::empty(), input);
        lemma_own_pointer(pressed.sleep(45), pointer, 0, x, y, button, KEY_RELEASED, input);
        lemma_own_pause(
            pressed.sleep(45).button(pointer, button, KEY_RELEASED),
            30,
            Seq::empty(),
            input,
        );
    }
}

proof fn lemma_own_axis(plan: PlannerView, pointer: u64, axis: u32, notches: i32, input: InputState)
    requires
        keeps_to(plan, input),
        input.pointer == Some(pointer),
    ensures
        keeps_to(plan.axis(pointer, axis, notches), input),
{
    let scroll = seq![
        EventArg::Noted,
        EventArg::Uint(axis),
        EventArg::Fixed(crate::inject::notches_fixed(notches)),
    ];
    lemma_own_send(plan, pointer, crate::plan::PTR_AXIS, scroll, input);
    let sent = plan.send(pointer, crate::plan::PTR_AXIS, scroll);
    lemma_own_send(
        sent,
        pointer,
        crate::plan::PTR_AXIS_DISCRETE,
        seq![EventArg::Uint(axis), EventArg::Int(notches)],
        input,
    );
}

proof fn lemma_own_pixel_axis(
    plan: PlannerView,
    pointer: u64,
    axis: u32,
    pixels: i32,
    input: InputState,
)
    requires
        keeps_to(plan, input),
        input.pointer == Some(pointer),
    ensures
        keeps_to(plan.pixel_axis(pointer, axis, pixels), input),
{
    let scroll = seq![
        EventArg::Noted,
        EventArg::Uint(axis),
        EventArg::Fixed(crate::inject::pixels_fixed(pixels)),
    ];
    lemma_own_send(plan, pointer, crate::plan::PTR_AXIS, scroll, input);
}

proof fn lemma_own_path(
    plan: PlannerView,
    pointer: u64,
    path: Seq<(i32, i32)>,
    input: InputState,
)
    requires
        keeps_to(plan, input),
        input.pointer == Some(pointer),
    ensures
        keeps_to(plan.moved_along(pointer, path), input),
    decreases path.len(),
{
    if path.len() > 0 {
        lemma_own_path(plan, pointer, path.drop_last(), input);
        let before = plan.moved_along(pointer, path.drop_last());
        let (x, y) = path.last();
        lemma_own_pointer(before, pointer, 0, x, y, 0, 0, input);
        let moved = before.motion(pointer, x, y);
        lemma_own_send(moved, pointer, 0, Seq::empty(), input);
        lemma_own_pause(moved.frame(pointer), 8, Seq::empty(), input);
    }
}

proof fn lemma_own_press(
    press: PressView,
    table: KeyTable,
    names: Seq<Seq<char>>,
    input: InputState,
)
    requires
        keeps_to(press.plan, input),
    ensures
        keeps_to(press.press_each(table, names).plan, input),
    decreases names.len(),
{
    if names.len() > 0 {
        lemma_own_press(press, table, names.drop_last(), input);
        let before = press.press_each(table, names.drop_last());
        let name = names.last();
        if !(before.plan.failed || before.refusal is Some) {
            match crate::typing::modifier_of(name) {
                None => {},
                Some((key, xkb)) => match crate::keymap::keysym_of(key) {
                    None => {
                        lemma_own_pause(
                            before.plan,
                            0,
                            "unknown modifier key '"@ + name + "'"@,
                            input,
                        );
                    },
                    Some(keysym) => match table.keycode(keysym) {
                        None => {},
                        Some(keycode) => match crate::keytable::mask_of(table.index_of(xkb)) {
                            None => {
                                lemma_own_pause(
                                    before.plan,
                                    0,
                                    crate::keytable::mask_error(table.index_of(xkb), xkb),
                                    input,
                                );
                            },
                            Some(mask) => {
                                lemma_own_keyboard(before.plan, keycode, true, mask, input);
                                lemma_own_keyboard(
                                    before.plan.key(keycode, true),
                                    keycode,
                                    true,
                                    before.depressed | mask,
                                    input,
                                );
                            },
                        },
                    },
                },
            }
        }
    }
}

proof fn lemma_own_press_all(
    press: PressView,
    layout: Layout,
    names: Seq<Seq<char>>,
    input: InputState,
)
    requires
        keeps_to(press.plan, input),
    ensures
        keeps_to(press.press_all(layout, names).plan, input),
{
    match layout {
        Layout::Unreadable(error) => {
            lemma_own_pause(press.plan, 0, error@, input);
        },
        Layout::Invalid => {
            lemma_own_pause(press.plan, 0, "failed to parse the app's keymap"@, input);
        },
        Layout::Ready(table) => {
            lemma_own_press(press, table, names, input);
        },
    }
}

proof fn lemma_own_release(
    plan: PlannerView,
    held: Seq<HeldModifier>,
    depressed: u32,
    input: InputState,
)
    requires
        keeps_to(plan, input),
    ensures
        keeps_to(plan.released(held, depressed), input),
    decreases held.len(),
{
    if held.len() > 0 {
        let item = held.last();
        let rest = depressed & !item.mask;
        lemma_own_keyboard(plan, item.keycode, false, rest, input);
        let keyed = plan.key(item.keycode, false);
        lemma_own_keyboard(keyed, item.keycode, false, rest, input);
        lemma_own_release(keyed.modifiers(rest), held.drop_last(), rest, input);
    }
}

proof fn lemma_own_tap(plan: PlannerView, keycode: u32, input: InputState)
    requires
        keeps_to(plan, input),
    ensures
        keeps_to(plan.key(keycode, true).sleep(20).key(keycode, false), input),
        keeps_to(plan.key(keycode, true).key(keycode, false), input),
{
    lemma_own_keyboard(plan, keycode, true, 0, input);
    let down = plan.key(keycode, true);
    lemma_own_keyboard(down, keycode, false, 0, input);
    lemma_own_pause(down, 20, Seq::empty(), input);
    lemma_own_keyboard(down.sleep(20), keycode, false, 0, input);
}

proof fn lemma_own_char(plan: PlannerView, table: KeyTable, c: char, keysym: u32, input: InputState)
    requires
        keeps_to(plan, input),
    ensures
        keeps_to(plan.one_typed(table, c, keysym), input),
{
    reveal(PlannerView::one_typed);
    match crate::typing::special_keysym(c) {
        Some(special) => {
            lemma_own_pause(
                plan,
                0,
                "no keycode for special keysym "@ + crate::text::prefixed_hexadecimal(
                    special as nat,
                ),
                input,
            );
            match table.keycode(special) {
                Some(keycode) => {
                    lemma_own_tap(plan, keycode, input);
                },
                None => {},
            }
        },
        None => match table.resolution(keysym) {
            None => {
                lemma_own_pause(
                    plan,
                    0,
                    "character '"@ + seq![c] + "' has no keycode on this keyboard layout"@,
                    input,
                );
            },
            Some(found) => {
                let shift = table.keycode(crate::keytable::KEYSYM_SHIFT_L);
                let mask = table.shift_mask();
                lemma_own_pause(
                    plan,
                    0,
                    "layout needs Shift but no Shift keycode was found"@,
                    input,
                );
                if shift is Some {
                    lemma_own_keyboard(plan, shift.unwrap(), true, mask, input);
                    let down = plan.key(shift.unwrap(), true);
                    lemma_own_keyboard(down, shift.unwrap(), true, mask, input);
                    lemma_own_pause(down.modifiers(mask), 20, Seq::empty(), input);
                }
                let pressed = if found.needs_shift {
                    plan.shift_held(table)
                } else {
                    plan
                };
                lemma_own_tap(pressed, found.keycode, input);
                let tapped = pressed.key(found.keycode, true).sleep(20).key(found.keycode, false);
                if shift is Some {
                    lemma_own_pause(tapped, 20, Seq::empty(), input);
                    lemma_own_keyboard(tapped.sleep(20), shift.unwrap(), false, 0, input);
                    let up = tapped.sleep(20).key(shift.unwrap(), false);
                    lemma_own_keyboard(up, shift.unwrap(), false, 0, input);
                }
                let up = if found.needs_shift {
                    tapped.shift_let_go(table)
                } else {
                    tapped
                };
                lemma_own_pause(up, 25, Seq::empty(), input);
            },
        },
    }
}

proof fn lemma_own_typed(
    plan: PlannerView,
    table: KeyTable,
    chars: Seq<char>,
    keysyms: Seq<u32>,
    input: InputState,
)
    requires
        keeps_to(plan, input),
    ensures
        keeps_to(plan.typed(table, chars, keysyms), input),
    decreases chars.len(),
{
    if chars.len() > 0 {
        lemma_own_typed(plan, table, chars.drop_last(), keysyms.drop_last(), input);
        lemma_own_char(
            plan.typed(table, chars.drop_last(), keysyms.drop_last()),
            table,
            chars.last(),
            keysyms.last(),
            input,
        );
    }
}

proof fn lemma_own_text(
    plan: PlannerView,
    layout: Layout,
    text: Seq<char>,
    keysyms: Seq<u32>,
    input: InputState,
)
    requires
        keeps_to(plan, input),
    ensures
        keeps_to(plan.text_given(layout, text, keysyms), input),
{
    lemma_own_pause(plan, 0, "text input cannot contain a NUL character"@, input);
    lemma_own_pause(plan, 0, "failed to parse the app's keymap"@, input);
    if input.text_input is Some {
        let target = input.text_input.unwrap();
        let commit = StepView::SendText {
            target,
            opcode: crate::plan::TEXT_COMMIT_STRING,
            text,
        };
        lemma_own_step(plan, commit, input);
        lemma_own_send(
            plan.step(commit),
            target,
            crate::plan::TEXT_DONE,
            seq![EventArg::Uint(plan.input.text_input_commit_serial)],
            input,
        );
    }
    match layout {
        Layout::Unreadable(error) => {
            lemma_own_pause(plan, 0, error@, input);
        },
        Layout::Invalid => {},
        Layout::Ready(table) => {
            lemma_own_typed(plan, table, text, keysyms, input);
        },
    }
}

/// Whether every part of a plan sends nothing but to the application's own
/// input objects.
pub open spec fn is_own_plan(input: InputState, plan: PlanView) -> bool {
    are_own(input, plan.open) && are_own(input, plan.lead) && are_own(input, plan.cycle) && are_own(
        input,
        plan.close,
    )
}

/// Pointer input goes to the application's own input objects and to nothing
/// else: clicks, scrolls and drags.
pub proof fn law_pointer_input_reaches_only_the_application(
    input: InputState,
    surface: Option<u64>,
    x: i32,
    y: i32,
    button: u32,
    count: u32,
    dx: i32,
    dy: i32,
    path: Seq<(i32, i32)>,
)
    ensures
        is_own_plan(input, crate::inject::click_plan(input, surface, x, y, button, count)),
        are_own(input, PlannerView::start(input, surface).scrolled(x, y, dx, dy).steps),
        are_own(input, PlannerView::start(input, surface).pixels_scrolled(x, y, dx, dy).steps),
        are_own(input, PlannerView::start(input, surface).dragged(x, y, path).steps),
{
    let start = PlannerView::start(input, surface);
    lemma_own_click(start, x, y, button, input);
    let lead = start.click_lead(x, y);
    lemma_own_click(PlannerView::start(lead.input, lead.surface), x, y, button, input);
    lemma_own_pause(start, 0, "the app has no surface to scroll in yet"@, input);
    lemma_own_pause(start, 0, "the app has no surface to drag in yet"@, input);
    lemma_own_pause(start, 0, "the app has not created a wl_pointer yet"@, input);
    if input.pointer is Some && surface is Some {
        let pointer = input.pointer.unwrap();
        lemma_own_pointer(start, pointer, surface.unwrap(), x, y, 0, 0, input);
        let on = start.pointer_on(pointer, surface.unwrap(), x, y);
        lemma_own_step(on, StepView::NoteTime, input);
        let noted = on.step(StepView::NoteTime);
        lemma_own_axis(noted, pointer, 0, dy, input);
        lemma_own_axis(noted.axis(pointer, 0, dy), pointer, 1, dx, input);
        lemma_own_send(
            noted.axis(pointer, 0, dy).axis(pointer, 1, dx),
            pointer,
            0,
            Seq::empty(),
            input,
        );
        lemma_own_pixel_axis(noted, pointer, 0, dy, input);
        lemma_own_pixel_axis(noted.pixel_axis(pointer, 0, dy), pointer, 1, dx, input);
        lemma_own_send(
            noted.pixel_axis(pointer, 0, dy).pixel_axis(pointer, 1, dx),
            pointer,
            0,
            Seq::empty(),
            input,
        );
        lemma_own_pointer(on, pointer, 0, x, y, 0, 0, input);
        let there = on.motion(pointer, x, y);
        lemma_own_pointer(there, pointer, 0, x, y, crate::plan::BTN_LEFT, KEY_PRESSED, input);
        let pressed = there.button(pointer, crate::plan::BTN_LEFT, KEY_PRESSED);
        lemma_own_path(pressed, pointer, path, input);
        lemma_own_pointer(
            pressed.moved_along(pointer, path),
            pointer,
            0,
            x,
            y,
            crate::plan::BTN_LEFT,
            KEY_RELEASED,
            input,
        );
    }
}

/// Keyboard input goes to the application's own input objects and to nothing
/// else: clicks with modifiers, key combinations and text.
pub proof fn law_keyboard_input_reaches_only_the_application(
    input: InputState,
    surface: Option<u64>,
    layout: Layout,
    names: Seq<Seq<char>>,
    x: i32,
    y: i32,
    button: u32,
    count: u32,
    text: Seq<char>,
    keysyms: Seq<u32>,
)
    ensures
        is_own_plan(
            input,
            crate::typing::modified_click_plan(
                input,
                surface,
                layout,
                names,
                x,
                y,
                button,
                count,
            ),
        ),
        is_own_plan(input, crate::typing::combination_plan(input, surface, layout, names)),
        are_own(input, PlannerView::start(input, surface).text_given(layout, text, keysyms).steps),
{
    let start = PlannerView::start(input, surface);
    lemma_own_text(start, layout, text, keysyms, input);
    lemma_own_pause(start, 0, "empty key"@, input);
    lemma_own_modified_click(input, surface, layout, names, x, y, button, count);
    if names.len() > 0 {
        let press = PressView::start(start).press_all(layout, names.drop_last());
        lemma_own_press_all(PressView::start(start), layout, names.drop_last(), input);
        let after = PlannerView::start(press.plan.input, surface);
        lemma_own_release(after, press.held, crate::typing::held_mask(press.held), input);
        match press.refusal {
            Some(message) => {
                lemma_own_pause(after, 0, message, input);
            },
            None => {},
        }
        match layout {
            Layout::Unreadable(error) => {
                lemma_own_pause(press.plan, 0, error@, input);
            },
            _ => {},
        }
        lemma_own_tapped(after, layout, names.last(), input);
    }
}

proof fn lemma_own_tapped(plan: PlannerView, layout: Layout, name: Seq<char>, input: InputState)
    requires
        keeps_to(plan, input),
    ensures
        keeps_to(plan.tapped(layout, name), input),
{
    lemma_own_pause(plan, 0, "unknown key '"@ + name + "'"@, input);
    lemma_own_pause(plan, 0, "failed to parse the app's keymap"@, input);
    lemma_own_pause(plan, 0, "keyboard layout has no keycode for '"@ + name + "'"@, input);
    match crate::keymap::keysym_of(name) {
        None => {},
        Some(keysym) => match layout {
            Layout::Unreadable(error) => {
                lemma_own_pause(plan, 0, error@, input);
            },
            Layout::Invalid => {},
            Layout::Ready(table) => match table.keycode(keysym) {
                Some(keycode) => {
                    lemma_own_tap(plan, keycode, input);
                },
                None => {},
            },
        },
    }
}

proof fn lemma_own_modified_click(
    input: InputState,
    surface: Option<u64>,
    layout: Layout,
    names: Seq<Seq<char>>,
    x: i32,
    y: i32,
    button: u32,
    count: u32,
)
    ensures
        is_own_plan(
            input,
            crate::typing::modified_click_plan(
                input,
                surface,
                layout,
                names,
                x,
                y,
                button,
                count,
            ),
        ),
{
    let start = PlannerView::start(input, surface);
    let press = PressView::start(start).press_all(layout, names);
    lemma_own_press_all(PressView::start(start), layout, names, input);
    let after = PlannerView::start(press.plan.input, surface);
    lemma_own_release(after, press.held, crate::typing::held_mask(press.held), input);
    match press.refusal {
        Some(message) => {
            lemma_own_pause(after, 0, message, input);
        },
        None => {
            lemma_own_click(after, x, y, button, input);
            let lead = after.click_lead(x, y);
            lemma_own_click(PlannerView::start(lead.input, lead.surface), x, y, button, input);
        },
    }
}

} // verus!
