use agent_seat_linux::inject::{
    plan_click, plan_drag, plan_key_raw, plan_pixel_scroll, plan_scroll, Plan,
};
use agent_seat_linux::input::InputState;
use agent_seat_linux::keytable::KeyTable;
use agent_seat_linux::plan::EventArg;
use agent_seat_linux::run::{Command, Injection};
use agent_seat_linux::typing::{plan_click_with_modifiers, plan_key_combo, plan_text, Layout};

const POINTER: u64 = 5;
const KEYBOARD: u64 = 6;
const TEXT_INPUT: u64 = 7;
const SURFACE: u64 = 11;

fn devices() -> InputState {
    let mut input = InputState::new();
    input.pointer = Some(POINTER);
    input.keyboard = Some(KEYBOARD);
    input
}

fn shown(args: &[EventArg]) -> String {
    let mut parts = Vec::new();
    for arg in args {
        parts.push(match arg {
            EventArg::Uint(v) => format!("{v}"),
            EventArg::Int(v) => format!("i{v}"),
            EventArg::Fixed(v) => format!("f{v}"),
            EventArg::Object(v) => format!("o{v}"),
            EventArg::NoKeys => String::from("[]"),
            EventArg::Now => String::from("now"),
            EventArg::Noted => String::from("noted"),
        });
    }
    parts.join(",")
}

/// Perform a plan at time 100; deliveries from the given one on fail.
fn perform(plan: Plan, input: &mut InputState, broken_from: usize) -> (Vec<String>, Result<(), String>) {
    let mut run = Injection::begin(plan);
    let mut log = Vec::new();
    let mut sent = 0;
    loop {
        match run.next(input, 100) {
            Command::Send { target, opcode, args } => {
                log.push(format!("{target}/{opcode}({})", shown(&args)));
                if sent >= broken_from {
                    run.delivery_failed(opcode, "gone");
                }
                sent += 1;
            }
            Command::SendText { target, opcode, text } => {
                log.push(format!("{target}/{opcode}'{text}'"));
                if sent >= broken_from {
                    run.delivery_failed(opcode, "gone");
                }
                sent += 1;
            }
            Command::Sleep { millis } => log.push(format!("sleep {millis}")),
            Command::Finished(result) => return (log, result),
        }
    }
}

fn all(plan: Plan, input: &mut InputState) -> Vec<String> {
    let (log, result) = perform(plan, input, usize::MAX);
    assert_eq!(result, Ok(()));
    log
}

fn failure(plan: Plan, input: &mut InputState) -> String {
    let (log, result) = perform(plan, input, usize::MAX);
    assert!(log.is_empty());
    result.unwrap_err()
}

/// Keys: 9 is a/A, 10 is Shift_L, 11 Control_L, 12 Return, 13 b.
fn layout() -> Layout {
    Layout::Ready(KeyTable {
        min: 8,
        base: vec![vec![], vec![0x61], vec![0xffe1], vec![0xffe3], vec![0xff0d], vec![0x62]],
        shifted: vec![vec![], vec![0x41], vec![], vec![], vec![], vec![]],
        shift_index: 0,
        control_index: 2,
        mod1_index: 0xffff_ffff,
        mod4_index: 40,
    })
}

#[test]
fn a_click_enters_moves_presses_and_releases() {
    let mut input = devices();
    let log = all(plan_click(input, Some(SURFACE), 256, 512, 0x110, 1), &mut input);
    assert_eq!(
        log,
        vec![
            "5/0(1,o11,f256,f512)",
            "5/5()",
            "5/2(100,f256,f512)",
            "5/5()",
            "5/3(2,100,272,1)",
            "5/5()",
            "sleep 45",
            "5/3(3,100,272,0)",
            "5/5()",
            "sleep 30",
        ]
    );
    assert_eq!(input.pointer_focus, Some(SURFACE));
    assert_eq!(input.focused_surface, Some(SURFACE));
    assert_eq!(input.next_serial, 4);
    assert_eq!(input.keyboard_focus, None);
}

#[test]
fn a_second_click_does_not_enter_again() {
    let mut input = devices();
    input.pointer_focus = Some(SURFACE);
    let log = all(plan_click(input, Some(SURFACE), 0, 0, 0x111, 2), &mut input);
    assert_eq!(log.len(), 2 + 2 * 6);
    assert_eq!(log[0], "5/2(100,f0,f0)");
    assert_eq!(log[2], "5/3(1,100,273,1)");
    assert_eq!(log[8], "5/3(3,100,273,1)");
}

#[test]
fn a_count_of_zero_only_moves_the_pointer() {
    let mut input = devices();
    let log = all(plan_click(input, Some(SURFACE), 256, 0, 0x110, 0), &mut input);
    assert_eq!(log, vec!["5/0(1,o11,f256,f0)", "5/5()", "5/2(100,f256,f0)", "5/5()"]);
    assert_eq!(input.pointer_focus, Some(SURFACE));
    assert_eq!(input.focused_surface, Some(SURFACE));
}

#[test]
fn the_pointer_leaves_the_surface_it_was_on() {
    let mut input = devices();
    input.pointer_focus = Some(3);
    let log = all(plan_click(input, Some(SURFACE), 0, 0, 0x110, 1), &mut input);
    assert_eq!(&log[..4], &["5/1(1,o3)", "5/5()", "5/0(2,o11,f0,f0)", "5/5()"]);
}

#[test]
fn missing_objects_are_reported() {
    let mut none = InputState::new();
    assert_eq!(
        failure(plan_click(none, None, 0, 0, 1, 1), &mut none),
        "the app has no surface to click in yet"
    );
    assert_eq!(
        failure(plan_click(none, Some(1), 0, 0, 1, 1), &mut none),
        "the app has not created a wl_pointer yet"
    );
    assert_eq!(
        failure(plan_scroll(none, None, 0, 0, 1, 1), &mut none),
        "the app has no surface to scroll in yet"
    );
    assert_eq!(
        failure(plan_scroll(none, Some(1), 0, 0, 1, 1), &mut none),
        "the app has not created a wl_pointer yet"
    );
    assert_eq!(
        failure(plan_drag(none, None, 0, 0, &vec![]), &mut none),
        "the app has no surface to drag in yet"
    );
    assert_eq!(
        failure(plan_drag(none, Some(1), 0, 0, &vec![]), &mut none),
        "the app has not created a wl_pointer yet"
    );
    assert_eq!(
        failure(plan_key_raw(none, None, 9, true), &mut none),
        "the app has not created a wl_keyboard yet"
    );
    let mut keyboard = devices();
    assert_eq!(
        failure(plan_key_raw(keyboard, None, 9, true), &mut keyboard),
        "the app has no surface to receive keyboard input"
    );
}

#[test]
fn a_pixel_scroll_sends_one_event_for_each_axis() {
    let mut input = devices();
    input.pointer_focus = Some(SURFACE);
    let log = all(plan_pixel_scroll(input, Some(SURFACE), 0, 0, 0, 30), &mut input);
    assert_eq!(log, vec!["5/4(100,0,f7680)", "5/5()"]);
    let log = all(plan_pixel_scroll(input, Some(SURFACE), 0, 0, -2, 1), &mut input);
    assert_eq!(log, vec!["5/4(100,0,f256)", "5/4(100,1,f-512)", "5/5()"]);
    let log = all(plan_pixel_scroll(input, Some(SURFACE), 0, 0, i32::MIN, i32::MAX), &mut input);
    assert_eq!(log[0], "5/4(100,0,f2147483647)");
    assert_eq!(log[1], "5/4(100,1,f-2147483648)");
    let mut none = InputState::new();
    assert_eq!(
        failure(plan_pixel_scroll(none, None, 0, 0, 1, 1), &mut none),
        "the app has no surface to scroll in yet"
    );
    assert_eq!(
        failure(plan_pixel_scroll(none, Some(1), 0, 0, 1, 1), &mut none),
        "the app has not created a wl_pointer yet"
    );
}

#[test]
fn a_scroll_sends_notches_for_each_axis() {
    let mut input = devices();
    input.pointer_focus = Some(SURFACE);
    let log = all(plan_scroll(input, Some(SURFACE), 0, 0, -1, 3), &mut input);
    assert_eq!(
        log,
        vec![
            "5/4(100,0,f7680)",
            "5/8(0,i3)",
            "5/4(100,1,f-2560)",
            "5/8(1,i-1)",
            "5/5()",
        ]
    );
    let log = all(plan_scroll(input, Some(SURFACE), 0, 0, 0, i32::MAX), &mut input);
    assert_eq!(log[0], "5/4(100,0,f2147483647)");
    let log = all(plan_scroll(input, Some(SURFACE), 0, 0, i32::MIN, 0), &mut input);
    assert_eq!(log[0], "5/4(100,1,f-2147483648)");
    assert_eq!(input.focused_surface, None);
}

#[test]
fn a_drag_follows_its_path() {
    let mut input = devices();
    input.pointer_focus = Some(SURFACE);
    let log = all(plan_drag(input, Some(SURFACE), 0, 0, &vec![(10, 20), (30, 40)]), &mut input);
    assert_eq!(
        log,
        vec![
            "5/2(100,f0,f0)",
            "5/3(1,100,272,1)",
            "5/5()",
            "5/2(100,f10,f20)",
            "5/5()",
            "sleep 8",
            "5/2(100,f30,f40)",
            "5/5()",
            "sleep 8",
            "5/3(2,100,272,0)",
            "5/5()",
        ]
    );
}

#[test]
fn keys_are_sent_in_kernel_numbers() {
    let mut input = devices();
    let log = all(plan_key_raw(input, Some(SURFACE), 38, true), &mut input);
    assert_eq!(log, vec!["6/1(1,o11,[])", "6/3(2,100,30,1)"]);
    assert_eq!(input.keyboard_focus, Some(SURFACE));
    let log = all(plan_key_raw(input, Some(SURFACE), 3, false), &mut input);
    assert_eq!(log, vec!["6/3(3,100,0,0)"]);
    input.keyboard_focus = Some(2);
    let log = all(plan_key_raw(input, Some(SURFACE), 9, true), &mut input);
    assert_eq!(log, vec!["6/2(4,o2)", "6/1(5,o11,[])", "6/3(6,100,1,1)"]);
}

#[test]
fn serials_wrap_around() {
    let mut input = devices();
    input.keyboard_focus = Some(SURFACE);
    input.next_serial = u32::MAX;
    let log = all(plan_key_raw(input, Some(SURFACE), 9, true), &mut input);
    assert_eq!(log, vec!["6/3(4294967295,100,1,1)"]);
    assert_eq!(input.next_serial, 0);
}

#[test]
fn a_combination_holds_its_modifiers() {
    let mut input = devices();
    input.keyboard_focus = Some(SURFACE);
    let log = all(plan_key_combo(input, Some(SURFACE), &layout(), "ctrl+shift+a"), &mut input);
    assert_eq!(
        log,
        vec![
            "6/3(1,100,3,1)",
            "6/4(2,4,0,0,0)",
            "6/3(3,100,2,1)",
            "6/4(4,5,0,0,0)",
            "6/3(5,100,1,1)",
            "sleep 20",
            "6/3(6,100,1,0)",
            "6/3(7,100,2,0)",
            "6/4(8,4,0,0,0)",
            "6/3(9,100,3,0)",
            "6/4(10,0,0,0,0)",
        ]
    );
}

#[test]
fn combinations_that_cannot_be_typed_let_go_of_their_modifiers() {
    let run = |keys: &str| {
        let mut input = devices();
        input.keyboard_focus = Some(SURFACE);
        perform(plan_key_combo(input, Some(SURFACE), &layout(), keys), &mut input, usize::MAX)
    };
    let (log, result) = run("ctrl+nonsense");
    assert_eq!(result, Err(String::from("unknown key 'nonsense'")));
    assert_eq!(log, vec!["6/3(1,100,3,1)", "6/4(2,4,0,0,0)", "6/3(3,100,3,0)", "6/4(4,0,0,0,0)"]);
    let (log, result) = run("ctrl+z");
    assert_eq!(result, Err(String::from("keyboard layout has no keycode for 'z'")));
    assert_eq!(log.len(), 4);
    let (log, result) = run("ctrl+hyper+a");
    assert_eq!(result, Err(String::from("unknown modifier 'hyper'")));
    assert_eq!(log.len(), 4);
    let (log, result) = run("ctrl+alt+a");
    assert_eq!(result, Err(String::from("keyboard layout has no keycode for 'alt'")));
    assert_eq!(log.len(), 4);
    let (log, result) = run(" + ");
    assert_eq!(result, Err(String::from("empty key")));
    assert!(log.is_empty());
}

#[test]
fn a_modifier_without_a_bit_ends_the_plan() {
    let table = |index: u32| {
        Layout::Ready(KeyTable {
            min: 8,
            base: vec![vec![0x61], vec![0xffeb]],
            shifted: vec![vec![], vec![]],
            shift_index: 0,
            control_index: 2,
            mod1_index: 3,
            mod4_index: index,
        })
    };
    let mut input = devices();
    assert_eq!(
        failure(plan_key_combo(input, Some(SURFACE), &table(40), "super+a"), &mut input),
        "invalid modifier index 40 for 'Mod4'"
    );
    assert_eq!(
        failure(plan_key_combo(input, Some(SURFACE), &table(u32::MAX), "super+a"), &mut input),
        "keyboard layout has no 'Mod4' modifier"
    );
}

#[test]
fn combinations_need_a_layout() {
    let mut input = devices();
    let unread = Layout::Unreadable(String::from("no keymap"));
    for keys in ["a", "ctrl+a", "nonsense"] {
        assert_eq!(
            failure(plan_key_combo(input, Some(SURFACE), &unread, keys), &mut input),
            "no keymap"
        );
    }
    assert_eq!(
        failure(plan_key_combo(input, Some(SURFACE), &Layout::Invalid, "a"), &mut input),
        "failed to parse the app's keymap"
    );
    assert_eq!(
        failure(plan_key_combo(input, Some(SURFACE), &Layout::Invalid, "ctrl+a"), &mut input),
        "failed to parse the app's keymap"
    );
    assert_eq!(
        failure(plan_key_combo(input, Some(SURFACE), &Layout::Invalid, "nonsense"), &mut input),
        "unknown key 'nonsense'"
    );
}

#[test]
fn a_click_with_modifiers_lets_go_of_them_whatever_happens() {
    let plan = |input: InputState, surface: Option<u64>| {
        plan_click_with_modifiers(input, surface, &layout(), Some("ctrl"), 0, 0, 0x110, 1)
    };
    let mut input = devices();
    input.keyboard_focus = Some(SURFACE);
    input.pointer_focus = Some(SURFACE);
    let before = input;
    let log = all(plan(input, Some(SURFACE)), &mut input);
    assert_eq!(log[0], "6/3(1,100,3,1)");
    assert_eq!(log[log.len() - 2], "6/3(5,100,3,0)");
    assert_eq!(log[log.len() - 1], "6/4(6,0,0,0,0)");

    // The press of the button cannot be delivered.
    let mut input = before;
    let (log, result) = perform(plan(before, Some(SURFACE)), &mut input, 4);
    assert_eq!(
        result,
        Err(String::from("could not deliver input event opcode 3: gone"))
    );
    // The closing part was begun, and could not be delivered either.
    assert_eq!(log[5], "6/3(4,100,3,0)");
    assert_eq!(log.len(), 6);

    // The first press cannot be delivered: nothing else happens.
    let mut input = before;
    let (log, result) = perform(plan(before, Some(SURFACE)), &mut input, 0);
    assert_eq!(
        result,
        Err(String::from("could not deliver input event opcode 3: gone"))
    );
    assert_eq!(log.len(), 1);
}

#[test]
fn clicks_without_modifiers_need_no_layout() {
    let mut input = devices();
    let unread = Layout::Unreadable(String::from("no keymap"));
    let log = all(
        plan_click_with_modifiers(input, Some(SURFACE), &unread, None, 0, 0, 0x110, 1),
        &mut input,
    );
    assert_eq!(log.len(), 10);
    let mut input = devices();
    let log = all(
        plan_click_with_modifiers(input, Some(SURFACE), &unread, Some(" + "), 0, 0, 0x110, 1),
        &mut input,
    );
    assert_eq!(log.len(), 10);
    assert_eq!(
        failure(
            plan_click_with_modifiers(input, Some(SURFACE), &unread, Some("ctrl"), 0, 0, 0x110, 1),
            &mut input
        ),
        "no keymap"
    );
}

#[test]
fn text_goes_whole_to_a_text_input() {
    let mut input = devices();
    input.text_input = Some(TEXT_INPUT);
    input.text_input_enabled = true;
    input.text_input_commit_serial = 9;
    let unread = Layout::Unreadable(String::from("no keymap"));
    let text = "héllo";
    let keysyms = vec![0; 5];
    let log = all(plan_text(input, Some(SURFACE), &unread, text, &keysyms), &mut input);
    assert_eq!(log, vec!["7/3'héllo'", "7/5(9)"]);
    assert_eq!(
        failure(plan_text(input, None, &unread, "a\0b", &vec![0; 3]), &mut input),
        "text input cannot contain a NUL character"
    );
    input.text_input_enabled = false;
    assert_eq!(
        failure(plan_text(input, None, &unread, "", &vec![]), &mut input),
        "no keymap"
    );
}

#[test]
fn text_is_typed_key_by_key() {
    let mut input = devices();
    input.keyboard_focus = Some(SURFACE);
    let log = all(
        plan_text(input, Some(SURFACE), &layout(), "aA\n", &vec![0x61, 0x41, 0]),
        &mut input,
    );
    assert_eq!(
        log,
        vec![
            "6/3(1,100,1,1)",
            "sleep 20",
            "6/3(2,100,1,0)",
            "sleep 25",
            "6/3(3,100,2,1)",
            "6/4(4,1,0,0,0)",
            "sleep 20",
            "6/3(5,100,1,1)",
            "sleep 20",
            "6/3(6,100,1,0)",
            "sleep 20",
            "6/3(7,100,2,0)",
            "6/4(8,0,0,0,0)",
            "sleep 25",
            "6/3(9,100,4,1)",
            "6/3(10,100,4,0)",
        ]
    );
}

#[test]
fn text_that_cannot_be_typed_says_why() {
    let mut input = devices();
    assert_eq!(
        failure(plan_text(input, Some(SURFACE), &layout(), "ß", &vec![0xdf]), &mut input),
        "character 'ß' has no keycode on this keyboard layout"
    );
    for (text, keysym) in [("\t", "0xff09"), ("\u{8}", "0xff08"), ("\u{1b}", "0xff1b")] {
        assert_eq!(
            failure(plan_text(input, Some(SURFACE), &layout(), text, &vec![0]), &mut input),
            format!("no keycode for special keysym {keysym}")
        );
    }
    let shiftless = Layout::Ready(KeyTable {
        min: 8,
        base: vec![vec![0x61]],
        shifted: vec![vec![0x41]],
        shift_index: 0,
        control_index: 2,
        mod1_index: 3,
        mod4_index: 6,
    });
    assert_eq!(
        failure(plan_text(input, Some(SURFACE), &shiftless, "A", &vec![0x41]), &mut input),
        "layout needs Shift but no Shift keycode was found"
    );
    assert_eq!(
        failure(plan_text(input, Some(SURFACE), &Layout::Invalid, "a", &vec![0x61]), &mut input),
        "failed to parse the app's keymap"
    );
    assert!(all(plan_text(input, Some(SURFACE), &Layout::Invalid, "", &vec![]), &mut input)
        .is_empty());
}

#[test]
fn a_finished_run_stays_finished() {
    let mut input = devices();
    let mut run = Injection::begin(plan_click(input, None, 0, 0, 1, 1));
    for _ in 0..3 {
        assert!(matches!(run.next(&mut input, 1), Command::Finished(Err(_))));
    }
    run.fail(String::from("later"));
    match run.next(&mut input, 1) {
        Command::Finished(Err(message)) => {
            assert_eq!(message, "the app has no surface to click in yet")
        }
        _ => panic!("the first error is the result"),
    }
}
