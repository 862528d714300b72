//! What planned input consists of, event by event.
use crate::inject::PlanView;
use crate::input::InputState;
use crate::plan::{EventArg, PlannerView, StepView};
use crate::proxy::ConnView;
use crate::run::{CommandView, Part, RunView};
use vstd::prelude::*;

verus! {

// ---------------------------------------------------------------------------
// Single events
// ---------------------------------------------------------------------------

/// `wl_pointer.frame`.
pub open spec fn frame_event(pointer: u64) -> StepView {
    StepView::Send { target: pointer, opcode: 5, serial: false, args: Seq::empty() }
}

/// `wl_pointer.motion`, at the time it is sent.
pub open spec fn motion_event(pointer: u64, x: i32, y: i32) -> StepView {
    StepView::Send {
        target: pointer,
        opcode: 2,
        serial: false,
        args: seq![EventArg::Now, EventArg::Fixed(x), EventArg::Fixed(y)],
    }
}

/// `wl_pointer.button`: 1 for pressed, 0 for released.
pub open spec fn button_event(pointer: u64, button: u32, state: u32) -> StepView {
    StepView::Send {
        target: pointer,
        opcode: 3,
        serial: true,
        args: seq![EventArg::Now, EventArg::Uint(button), EventArg::Uint(state)],
    }
}

/// `wl_keyboard.key`: 1 for pressed, 0 for released.
pub open spec fn key_event(keyboard: u64, key: u32, state: u32) -> StepView {
    StepView::Send {
        target: keyboard,
        opcode: 3,
        serial: true,
        args: seq![EventArg::Now, EventArg::Uint(key), EventArg::Uint(state)],
    }
}

/// `wl_keyboard.modifiers`: the mask of those that are held, and nothing
/// latched or locked.
pub open spec fn modifiers_event(keyboard: u64, mask: u32) -> StepView {
    StepView::Send {
        target: keyboard,
        opcode: 4,
        serial: true,
        args: seq![
            EventArg::Uint(mask),
            EventArg::Uint(0),
            EventArg::Uint(0),
            EventArg::Uint(0),
        ],
    }
}

/// What brings the pointer over a surface: nothing where it is there, else it
/// leaves where it was and enters at the point.
pub open spec fn pointer_approach(
    focus: Option<u64>,
    pointer: u64,
    surface: u64,
    x: i32,
    y: i32,
) -> Seq<StepView> {
    let enter = seq![
        StepView::Send {
            target: pointer,
            opcode: 0,
            serial: true,
            args: seq![EventArg::Object(surface), EventArg::Fixed(x), EventArg::Fixed(y)],
        },
        frame_event(pointer),
        StepView::PointerOn(surface),
    ];
    match focus {
        Some(previous) => if previous == surface {
            Seq::empty()
        } else {
            seq![
                StepView::Send {
                    target: pointer,
                    opcode: 1,
                    serial: true,
                    args: seq![EventArg::Object(previous)],
                },
                frame_event(pointer),
            ] + enter
        },
        None => enter,
    }
}

/// What focuses the keyboard on a surface: nothing where it is there, else it
/// leaves where it was and enters with no key pressed.
pub open spec fn keyboard_approach(
    focus: Option<u64>,
    keyboard: u64,
    surface: u64,
) -> Seq<StepView> {
    let enter = seq![
        StepView::Send {
            target: keyboard,
            opcode: 1,
            serial: true,
            args: seq![EventArg::Object(surface), EventArg::NoKeys],
        },
        StepView::KeyboardOn(surface),
    ];
    match focus {
        Some(previous) => if previous == surface {
            Seq::empty()
        } else {
            seq![
                StepView::Send {
                    target: keyboard,
                    opcode: 2,
                    serial: true,
                    args: seq![EventArg::Object(previous)],
                },
            ] + enter
        },
        None => enter,
    }
}

/// Each planned event stands behind those planned before, in its own form:
/// moving, pressing and releasing buttons, framing, pausing and failing.
pub proof fn law_pointer_events_have_their_form(
    plan: PlannerView,
    pointer: u64,
    surface: u64,
    x: i32,
    y: i32,
    button: u32,
    state: u32,
    millis: u64,
    message: Seq<char>,
)
    requires
        !plan.failed,
    ensures
        plan.motion(pointer, x, y).steps == plan.steps.push(motion_event(pointer, x, y)),
        plan.frame(pointer).steps == plan.steps.push(frame_event(pointer)),
        plan.button(pointer, button, state).steps == plan.steps.push(
            button_event(pointer, button, state),
        ).push(frame_event(pointer)),
        plan.sleep(millis).steps == plan.steps.push(StepView::Sleep { millis }),
        plan.fail(message).steps == plan.steps.push(StepView::Fail(message)),
        plan.fail(message).failed,
        plan.pointer_on(pointer, surface, x, y).steps == plan.steps + pointer_approach(
            plan.input.pointer_focus,
            pointer,
            surface,
            x,
            y,
        ),
        plan.pointer_on(pointer, surface, x, y).input == (InputState {
            pointer_focus: Some(surface),
            ..plan.input
        }),
        !plan.pointer_on(pointer, surface, x, y).failed,
{
    let after = plan.pointer_on(pointer, surface, x, y);
    let approach = pointer_approach(plan.input.pointer_focus, pointer, surface, x, y);
    assert(after.steps =~= plan.steps + approach);
}

/// A key is pressed and released by the number that the kernel gives it,
/// eight less than the layout's, on the focused surface; modifiers are
/// announced by their mask.
pub proof fn law_key_events_have_their_form(
    plan: PlannerView,
    keyboard: u64,
    surface: u64,
    keycode: u32,
    pressed: bool,
    mask: u32,
)
    requires
        !plan.failed,
        plan.input.keyboard == Some(keyboard),
        plan.surface == Some(surface),
    ensures
        plan.key(keycode, pressed).steps == (plan.steps + keyboard_approach(
            plan.input.keyboard_focus,
            keyboard,
            surface,
        )).push(
            key_event(
                keyboard,
                if keycode >= 8 {
                    (keycode - 8) as u32
                } else {
                    0
                },
                if pressed {
                    1
                } else {
                    0
                },
            ),
        ),
        plan.key(keycode, pressed).input == (InputState {
            keyboard_focus: Some(surface),
            ..plan.input
        }),
        !plan.key(keycode, pressed).failed,
        plan.modifiers(mask).steps == plan.steps.push(modifiers_event(keyboard, mask)),
        plan.modifiers(mask).input == plan.input,
        !plan.modifiers(mask).failed,
{
    let focused = plan.keyboard_on(keyboard, surface);
    let approach = keyboard_approach(plan.input.keyboard_focus, keyboard, surface);
    assert(focused.steps =~= plan.steps + approach);
}

/// Without a keyboard or a surface a key ends the plan with the reason; once
/// a plan has ended nothing is added.
pub proof fn law_keys_need_a_keyboard_and_a_surface(
    plan: PlannerView,
    keycode: u32,
    pressed: bool,
    mask: u32,
    step: StepView,
)
    ensures
        !plan.failed && plan.input.keyboard is None ==> plan.key(keycode, pressed).steps
            == plan.steps.push(StepView::Fail("the app has not created a wl_keyboard yet"@))
            && plan.key(keycode, pressed).failed && plan.modifiers(mask).failed,
        !plan.failed && plan.input.keyboard is Some && plan.surface is None ==> plan.key(
            keycode,
            pressed,
        ).steps == plan.steps.push(
            StepView::Fail("the app has no surface to receive keyboard input"@),
        ) && plan.key(keycode, pressed).failed,
        plan.failed ==> plan.step(step) == plan,
        !plan.failed ==> plan.step(step).steps == plan.steps.push(step) && plan.step(step).failed
            == (step is Fail) && plan.step(step).surface == plan.surface,
{
}

// ---------------------------------------------------------------------------
// Pointer acts
// ---------------------------------------------------------------------------

/// What a pointer act comes to where something to act on is missing.
pub open spec fn missing_target(surface: Option<u64>, no_surface: Seq<char>) -> Seq<StepView> {
    seq![
        StepView::Fail(
            if surface is None {
                no_surface
            } else {
                "the app has not created a wl_pointer yet"@
            },
        ),
    ]
}

/// A click moves the pointer to its point on the surface, which keyboard
/// input follows, and then presses and releases its button as many times as
/// it counts.
pub proof fn law_clicks_press_and_release(
    input: InputState,
    surface: Option<u64>,
    x: i32,
    y: i32,
    button: u32,
    count: u32,
)
    ensures
        ({
            let plan = crate::inject::click_plan(input, surface, x, y, button, count);
            &&& plan.open == Seq::<StepView>::empty()
            &&& plan.close == Seq::<StepView>::empty()
            &&& match (input.pointer, surface) {
                (Some(pointer), Some(surface)) => {
                    &&& plan.lead == pointer_approach(input.pointer_focus, pointer, surface, x, y)
                        + seq![
                        StepView::SurfaceFocused(surface),
                        motion_event(pointer, x, y),
                        frame_event(pointer),
                    ]
                    &&& plan.cycles == count
                    &&& plan.cycle == seq![
                        button_event(pointer, button, 1),
                        frame_event(pointer),
                        StepView::Sleep { millis: 45 },
                        button_event(pointer, button, 0),
                        frame_event(pointer),
                        StepView::Sleep { millis: 30 },
                    ]
                },
                _ => {
                    &&& plan.lead == missing_target(surface, "the app has no surface to click in yet"@)
                    &&& plan.cycles == 0
                },
            }
        }),
{
    let begun = PlannerView::start(input, surface);
    let plan = crate::inject::click_plan(input, surface, x, y, button, count);
    if input.pointer is Some && surface is Some {
        let pointer = input.pointer.unwrap();
        let at = surface.unwrap();
        law_pointer_events_have_their_form(begun, pointer, at, x, y, button, 1, 45, Seq::empty());
        let near = begun.pointer_on(pointer, at, x, y);
        let focused = near.step(StepView::SurfaceFocused(at));
        let moved = focused.motion(pointer, x, y);
        assert(plan.lead =~= pointer_approach(input.pointer_focus, pointer, at, x, y) + seq![
            StepView::SurfaceFocused(at),
            motion_event(pointer, x, y),
            frame_event(pointer),
        ]);
        let aimed = begun.click_lead(x, y);
        let fresh = PlannerView::start(aimed.input, aimed.surface);
        let down = fresh.button(pointer, button, 1);
        law_pointer_events_have_their_form(fresh, pointer, at, x, y, button, 1, 45, Seq::empty());
        let held = down.sleep(45);
        law_pointer_events_have_their_form(held, pointer, at, x, y, button, 0, 30, Seq::empty());
        assert(plan.cycle =~= seq![
            button_event(pointer, button, 1),
            frame_event(pointer),
            StepView::Sleep { millis: 45 },
            button_event(pointer, button, 0),
            frame_event(pointer),
            StepView::Sleep { millis: 30 },
        ]);
    } else {
        assert(plan.lead =~= missing_target(surface, "the app has no surface to click in yet"@));
    }
}

/// A value in 24.8 fixed point, as far as it fits.
pub open spec fn is_clamped(value: int, fixed: i32) -> bool {
    &&& i32::MIN <= value <= i32::MAX ==> fixed == value
    &&& value > i32::MAX ==> fixed == i32::MAX
    &&& value < i32::MIN ==> fixed == i32::MIN
}

/// `wl_pointer.axis`: how far one axis is scrolled, at the noted time.
pub open spec fn axis_event(pointer: u64, axis: u32, fixed: i32) -> StepView {
    StepView::Send {
        target: pointer,
        opcode: 4,
        serial: false,
        args: seq![EventArg::Noted, EventArg::Uint(axis), EventArg::Fixed(fixed)],
    }
}

/// `wl_pointer.axis_discrete`: how many notches one axis is scrolled.
pub open spec fn notches_event(pointer: u64, axis: u32, notches: i32) -> StepView {
    StepView::Send {
        target: pointer,
        opcode: 8,
        serial: false,
        args: seq![EventArg::Uint(axis), EventArg::Int(notches)],
    }
}

/// One axis of a scroll by notches.
pub open spec fn notches_scrolled(pointer: u64, axis: u32, notches: i32, fixed: i32) -> Seq<
    StepView,
> {
    if notches == 0 {
        Seq::empty()
    } else {
        seq![axis_event(pointer, axis, fixed), notches_event(pointer, axis, notches)]
    }
}

/// One axis of a scroll by pixels.
pub open spec fn one_axis_scrolled(pointer: u64, axis: u32, pixels: i32, fixed: i32) -> Seq<
    StepView,
> {
    if pixels == 0 {
        Seq::empty()
    } else {
        seq![axis_event(pointer, axis, fixed)]
    }
}

/// A scroll by notches moves the pointer over the surface and tells, for the
/// vertical axis and then for the horizontal one, ten units and one step for
/// each notch; an axis without notches is not mentioned.
pub proof fn law_scrolls_count_notches(
    input: InputState,
    surface: Option<u64>,
    x: i32,
    y: i32,
    dx: i32,
    dy: i32,
)
    ensures
        ({
            let steps = PlannerView::start(input, surface).scrolled(x, y, dx, dy).steps;
            match (input.pointer, surface) {
                (Some(pointer), Some(surface)) => exists|down: i32, across: i32|
                    {
                        &&& is_clamped(dy * 10 * 256, down)
                        &&& is_clamped(dx * 10 * 256, across)
                        &&& steps == (pointer_approach(
                            input.pointer_focus,
                            pointer,
                            surface,
                            x,
                            y,
                        ).push(StepView::NoteTime) + #[trigger] notches_scrolled(
                            pointer,
                            0,
                            dy,
                            down,
                        ) + #[trigger] notches_scrolled(pointer, 1, dx, across)).push(
                            frame_event(pointer),
                        )
                    },
                _ => steps == missing_target(surface, "the app has no surface to scroll in yet"@),
            }
        }),
{
    let begun = PlannerView::start(input, surface);
    let steps = begun.scrolled(x, y, dx, dy).steps;
    if input.pointer is Some && surface is Some {
        let pointer = input.pointer.unwrap();
        let at = surface.unwrap();
        law_pointer_events_have_their_form(begun, pointer, at, x, y, 0, 0, 0, Seq::empty());
        let down = crate::inject::notches_fixed(dy);
        let across = crate::inject::notches_fixed(dx);
        let approach = pointer_approach(input.pointer_focus, pointer, at, x, y);
        let noted = begun.pointer_on(pointer, at, x, y).step(StepView::NoteTime);
        assert(noted.steps =~= approach.push(StepView::NoteTime));
        let first = noted.axis(pointer, 0, dy);
        assert(first.steps =~= noted.steps + notches_scrolled(pointer, 0, dy, down));
        let second = first.axis(pointer, 1, dx);
        assert(second.steps =~= first.steps + notches_scrolled(pointer, 1, dx, across));
        assert(steps =~= second.steps.push(frame_event(pointer)));
        assert(is_clamped(dy * 10 * 256, down));
        assert(is_clamped(dx * 10 * 256, across));
    } else {
        assert(steps =~= missing_target(surface, "the app has no surface to scroll in yet"@));
    }
}

/// A scroll by pixels moves the pointer over the surface and tells the
/// pixels, vertically and then horizontally, in 24.8 fixed point and without
/// notches; an axis without pixels is not mentioned.
pub proof fn law_pixel_scrolls_tell_pixels(
    input: InputState,
    surface: Option<u64>,
    x: i32,
    y: i32,
    dx: i32,
    dy: i32,
)
    ensures
        ({
            let steps = PlannerView::start(input, surface).pixels_scrolled(x, y, dx, dy).steps;
            match (input.pointer, surface) {
                (Some(pointer), Some(surface)) => exists|down: i32, across: i32|
                    {
                        &&& is_clamped(dy * 256, down)
                        &&& is_clamped(dx * 256, across)
                        &&& steps == (pointer_approach(
                            input.pointer_focus,
                            pointer,
                            surface,
                            x,
                            y,
                        ).push(StepView::NoteTime) + #[trigger] one_axis_scrolled(
                            pointer,
                            0,
                            dy,
                            down,
                        ) + #[trigger] one_axis_scrolled(pointer, 1, dx, across)).push(
                            frame_event(pointer),
                        )
                    },
                _ => steps == missing_target(surface, "the app has no surface to scroll in yet"@),
            }
        }),
{
    let begun = PlannerView::start(input, surface);
    let steps = begun.pixels_scrolled(x, y, dx, dy).steps;
    if input.pointer is Some && surface is Some {
        let pointer = input.pointer.unwrap();
        let at = surface.unwrap();
        law_pointer_events_have_their_form(begun, pointer, at, x, y, 0, 0, 0, Seq::empty());
        let down = crate::inject::pixels_fixed(dy);
        let across = crate::inject::pixels_fixed(dx);
        let approach = pointer_approach(input.pointer_focus, pointer, at, x, y);
        let noted = begun.pointer_on(pointer, at, x, y).step(StepView::NoteTime);
        assert(noted.steps =~= approach.push(StepView::NoteTime));
        let first = noted.pixel_axis(pointer, 0, dy);
        assert(first.steps =~= noted.steps + one_axis_scrolled(pointer, 0, dy, down));
        let second = first.pixel_axis(pointer, 1, dx);
        assert(second.steps =~= first.steps + one_axis_scrolled(pointer, 1, dx, across));
        assert(steps =~= second.steps.push(frame_event(pointer)));
        assert(is_clamped(dy * 256, down));
        assert(is_clamped(dx * 256, across));
    } else {
        assert(steps =~= missing_target(surface, "the app has no surface to scroll in yet"@));
    }
}

pub(crate) proof fn lemma_joined<A>(parts: Seq<Seq<A>>)
    ensures
        parts.len() == 0 ==> parts.flatten() == Seq::<A>::empty(),
        parts.len() > 0 ==> parts.flatten() == parts.drop_last().flatten() + parts.last(),
{
    parts.lemma_flatten_and_flatten_alt_are_equivalent();
    if parts.len() > 0 {
        parts.drop_last().lemma_flatten_and_flatten_alt_are_equivalent();
    }
}

/// What a drag does at one point of its path.
pub open spec fn drag_point(pointer: u64, point: (i32, i32)) -> Seq<StepView> {
    seq![
        motion_event(pointer, point.0, point.1),
        frame_event(pointer),
        StepView::Sleep { millis: 8 },
    ]
}

proof fn lemma_moved_along(plan: PlannerView, pointer: u64, path: Seq<(i32, i32)>)
    requires
        !plan.failed,
    ensures
        plan.moved_along(pointer, path).steps == plan.steps + Seq::new(
            path.len(),
            |i: int| drag_point(pointer, path[i]),
        ).flatten(),
        !plan.moved_along(pointer, path).failed,
    decreases path.len(),
{
    let parts = Seq::new(path.len(), |i: int| drag_point(pointer, path[i]));
    lemma_joined(parts);
    if path.len() == 0 {
        assert(plan.steps + parts.flatten() =~= plan.steps);
    } else {
        let front = path.drop_last();
        lemma_moved_along(plan, pointer, front);
        let before = Seq::new(front.len(), |i: int| drag_point(pointer, front[i]));
        assert(parts.drop_last() =~= before);
        let so_far = plan.moved_along(pointer, front);
        assert(plan.moved_along(pointer, path).steps =~= so_far.steps + drag_point(
            pointer,
            path.last(),
        ));
        assert(plan.moved_along(pointer, path).steps =~= plan.steps + parts.flatten());
    }
}

/// A drag presses the left button where it starts, visits every point of its
/// path in order, and releases the button at the end.
pub proof fn law_drags_visit_their_path(
    input: InputState,
    surface: Option<u64>,
    x: i32,
    y: i32,
    path: Seq<(i32, i32)>,
)
    ensures
        ({
            let steps = PlannerView::start(input, surface).dragged(x, y, path).steps;
            match (input.pointer, surface) {
                (Some(pointer), Some(surface)) => steps == pointer_approach(
                    input.pointer_focus,
                    pointer,
                    surface,
                    x,
                    y,
                ) + seq![
                    motion_event(pointer, x, y),
                    button_event(pointer, 0x110, 1),
                    frame_event(pointer),
                ] + Seq::new(path.len(), |i: int| drag_point(pointer, path[i])).flatten() + seq![
                    button_event(pointer, 0x110, 0),
                    frame_event(pointer),
                ],
                _ => steps == missing_target(surface, "the app has no surface to drag in yet"@),
            }
        }),
{
    let begun = PlannerView::start(input, surface);
    let steps = begun.dragged(x, y, path).steps;
    if input.pointer is Some && surface is Some {
        let pointer = input.pointer.unwrap();
        let at = surface.unwrap();
        law_pointer_events_have_their_form(begun, pointer, at, x, y, 0, 0, 0, Seq::empty());
        let approach = pointer_approach(input.pointer_focus, pointer, at, x, y);
        let near = begun.pointer_on(pointer, at, x, y);
        assert(near.steps =~= approach);
        let moved = near.motion(pointer, x, y);
        law_pointer_events_have_their_form(moved, pointer, at, x, y, 0x110, 1, 0, Seq::empty());
        let down = moved.button(pointer, 0x110, 1);
        assert(down.steps =~= approach + seq![
            motion_event(pointer, x, y),
            button_event(pointer, 0x110, 1),
            frame_event(pointer),
        ]);
        lemma_moved_along(down, pointer, path);
        let along = down.moved_along(pointer, path);
        law_pointer_events_have_their_form(along, pointer, at, x, y, 0x110, 0, 0, Seq::empty());
        assert(steps =~= along.steps + seq![
            button_event(pointer, 0x110, 0),
            frame_event(pointer),
        ]);
    } else {
        assert(steps =~= missing_target(surface, "the app has no surface to drag in yet"@));
    }
}

/// Input goes to the focused surface; without one, to a surface than which
/// none was committed later; and to none only where there is none.
pub proof fn law_input_goes_to_one_surface<F>(v: ConnView<F>, target: Option<u64>, other: u64)
    requires
        v.is_target(target),
    ensures
        v.input.focused_surface is Some ==> target == v.input.focused_surface,
        v.input.focused_surface is None && target is None ==> !v.surfaces.contains_key(other),
        v.input.focused_surface is None && target is Some ==> v.surfaces.contains_key(
            target.unwrap(),
        ) && (v.surfaces.contains_key(other) ==> v.surfaces[other].last_commit
            <= v.surfaces[target.unwrap()].last_commit),
{
    if v.surfaces.contains_key(other) {
        assert(v.surfaces.dom().contains(other));
    }
}

/// What is injected is the plan for the surface that input goes to, from its
/// beginning.
pub proof fn law_injections_perform_the_plan<F>(
    v: ConnView<F>,
    run: RunView,
    plan: spec_fn(Option<u64>) -> PlanView,
)
    requires
        v.injects(run, plan),
    ensures
        exists|target: Option<u64>| #[trigger]
            v.is_target(target) && run.part == Part::Open && run.rest == plan(target).open
                && run.close == plan(target).close && run.error is None && run.act == plan(
                target,
            ).lead + crate::run::repeated(plan(target).cycle, plan(target).cycles as nat),
{
    let target = choose|target: Option<u64>| #[trigger]
        v.is_target(target) && run == RunView::begun(plan(target));
    assert(v.is_target(target));
}

// ---------------------------------------------------------------------------
// Runs
// ---------------------------------------------------------------------------

/// Repeated steps are the same steps over and over, as many times as is said.
pub proof fn law_rounds_repeat_the_same_steps(steps: Seq<StepView>, times: nat, round: int, i: int)
    requires
        0 <= round < times,
        0 <= i < steps.len(),
    ensures
        crate::run::repeated(steps, times).len() == times * steps.len(),
        0 <= round * steps.len() + i < times * steps.len(),
        crate::run::repeated(steps, times)[round * steps.len() + i] == steps[i],
    decreases times,
{
    let len = steps.len() as int;
    assert(0 <= round * len + i < times * len) by (nonlinear_arith)
        requires
            0 <= round < times,
            0 <= i < len,
    ;
    assert(times * len == len + (times - 1) * len) by (nonlinear_arith);
    let rest = crate::run::repeated(steps, (times - 1) as nat);
    if times == 1 {
        assert(rest =~= Seq::empty());
        assert(round * len == 0) by (nonlinear_arith)
            requires
                round == 0,
        ;
    } else if round > 0 {
        law_rounds_repeat_the_same_steps(steps, (times - 1) as nat, round - 1, i);
        assert(round * len == len + (round - 1) * len) by (nonlinear_arith);
    } else {
        law_rounds_repeat_the_same_steps(steps, (times - 1) as nat, 0, i);
        assert(round * len == 0) by (nonlinear_arith)
            requires
                round == 0,
        ;
    }
}

/// A run performs the opening part of its plan first, then the leading part
/// once and the rounds after it, and the closing part last; without rounds
/// the leading part is all there is in between.
pub proof fn law_runs_follow_their_plan(plan: PlanView)
    ensures
        ({
            let run = RunView::begun(plan);
            &&& run.part == Part::Open
            &&& run.rest == plan.open
            &&& run.act.take(plan.lead.len() as int) == plan.lead
            &&& run.act.skip(plan.lead.len() as int) == crate::run::repeated(
                plan.cycle,
                plan.cycles as nat,
            )
            &&& plan.cycles == 0 ==> run.act == plan.lead
            &&& plan.cycles == 1 ==> run.act == plan.lead + plan.cycle
            &&& run.close == plan.close
            &&& run.error is None
        }),
{
    let run = RunView::begun(plan);
    assert(run.act.take(plan.lead.len() as int) =~= plan.lead);
    assert(run.act.skip(plan.lead.len() as int) =~= crate::run::repeated(
        plan.cycle,
        plan.cycles as nat,
    ));
    reveal_with_fuel(crate::run::repeated, 3);
    if plan.cycles == 0 {
        assert(run.act =~= plan.lead);
    }
    if plan.cycles == 1 {
        assert(run.act =~= plan.lead + plan.cycle);
    }
}

/// Each event is sent as planned: to the same object, with the next serial in
/// front where it takes one, with the present or the noted time where the
/// plan asks for it, and with every other argument as it stands. Texts and
/// pauses are passed on unchanged.
pub proof fn law_events_are_sent_as_planned(
    target: u64,
    opcode: u16,
    serial: bool,
    args: Seq<EventArg>,
    text: Seq<char>,
    millis: u64,
    input: InputState,
    now: u32,
    noted: u32,
)
    ensures
        crate::run::command_of(StepView::SendText { target, opcode, text }, input, now, noted)
            == Some(CommandView::SendText { target, opcode, text }),
        crate::run::command_of(StepView::Sleep { millis }, input, now, noted) == Some(
            CommandView::Sleep { millis },
        ),
        ({
            let step = StepView::Send { target, opcode, serial, args };
            let lead = if serial {
                1int
            } else {
                0
            };
            &&& crate::run::command_of(step, input, now, noted) matches Some(
                CommandView::Send { target: sent_to, opcode: sent, args: values },
            )
            &&& sent_to == target
            &&& sent == opcode
            &&& values.len() == args.len() + lead
            &&& serial ==> values[0] == EventArg::Uint(input.next_serial)
            &&& forall|i: int|
                0 <= i < args.len() ==> values[i + lead] == (match #[trigger] args[i] {
                    EventArg::Now => EventArg::Uint(now),
                    EventArg::Noted => EventArg::Uint(noted),
                    other => other,
                })
            &&& crate::run::input_after(input, step).next_serial == (if serial {
                input.next_serial.wrapping_add(1)
            } else {
                input.next_serial
            })
            &&& crate::run::input_after(input, step).pointer_focus == input.pointer_focus
            &&& crate::run::input_after(input, step).keyboard_focus == input.keyboard_focus
            &&& crate::run::input_after(input, step).focused_surface == input.focused_surface
        }),
{
}

/// Steps that are not seen outside note what they say, and nothing else.
pub proof fn law_silent_steps_note_what_they_say(
    run: RunView,
    input: InputState,
    surface: u64,
    now: u32,
)
    requires
        run.part != Part::Over,
        run.rest.len() > 0,
    ensures
        crate::run::input_after(input, StepView::PointerOn(surface)) == (InputState {
            pointer_focus: Some(surface),
            ..input
        }),
        crate::run::input_after(input, StepView::KeyboardOn(surface)) == (InputState {
            keyboard_focus: Some(surface),
            ..input
        }),
        crate::run::input_after(input, StepView::SurfaceFocused(surface)) == (InputState {
            focused_surface: Some(surface),
            ..input
        }),
        crate::run::input_after(input, StepView::NoteTime) == input,
        run.stepped(now).noted == (if run.rest[0] is NoteTime {
            now
        } else {
            run.noted
        }),
        !(run.rest[0] is Fail) ==> run.stepped(now).rest == run.rest.skip(1)
            && run.stepped(now).part == run.part && run.stepped(now).error == run.error,
        run.stepped(now).act == run.act,
        run.stepped(now).close == run.close,
{
}

/// A run goes from part to part and from step to step: what its first step
/// makes the caller do is asked for next, steps that are not seen outside are
/// passed over on the way, an empty part gives way to the next one, and a run
/// that is over says how it ended.
pub proof fn law_runs_go_step_by_step(run: RunView, input: InputState, now: u32)
    ensures
        run.part == Part::Over ==> run.next(input, now) == (
            run,
            input,
            CommandView::Finished(run.error),
        ),
        run.part == Part::Open && run.rest.len() == 0 ==> run.next(input, now) == (RunView {
            part: Part::Act,
            rest: run.act,
            ..run
        }).next(input, now),
        run.part == Part::Act && run.rest.len() == 0 ==> run.next(input, now) == (RunView {
            part: Part::Close,
            rest: run.close,
            ..run
        }).next(input, now),
        run.part == Part::Close && run.rest.len() == 0 ==> run.next(input, now).2
            == CommandView::Finished(run.error),
        run.part != Part::Over && run.rest.len() > 0 && (run.rest[0] is Send || run.rest[0]
            is SendText || run.rest[0] is Sleep) ==> {
            let (after, known, command) = run.next(input, now);
            &&& after == (RunView { rest: run.rest.skip(1), ..run })
            &&& known == crate::run::input_after(input, run.rest[0])
            &&& crate::run::command_of(run.rest[0], input, now, run.noted) == Some(command)
        },
        run.part != Part::Over && run.rest.len() > 0 && !(run.rest[0] is Send || run.rest[0]
            is SendText || run.rest[0] is Sleep) ==> run.next(input, now) == run.stepped(now).next(
            crate::run::input_after(input, run.rest[0]),
            now,
        ),
{
    reveal_with_fuel(RunView::next, 3);
}

/// A failed step fails the run with its message, as an event that could not
/// be delivered does.
pub proof fn law_failed_steps_fail_the_run(run: RunView, message: Seq<char>, now: u32)
    requires
        run.part != Part::Over,
        run.rest.len() > 0,
        run.rest[0] == StepView::Fail(message),
    ensures
        run.stepped(now).error == (match run.error {
            Some(first) => Some(first),
            None => Some(message),
        }),
        run.part == Part::Act ==> run.stepped(now).part == Part::Close && run.stepped(now).rest
            == run.close,
        run.part != Part::Act ==> run.stepped(now).part == Part::Over,
{
}

} // verus!
