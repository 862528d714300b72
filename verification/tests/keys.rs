use agent_seat_linux::keymap::keysym_for_key;
use agent_seat_linux::keytable::{
    keymap_text, modifier_mask, resolve_text, KeyTable, NO_MODIFIER,
};
use agent_seat_linux::text::{
    decimal_text, decoded, parse_u32, prefixed_hex_text, signed_text, split, split_plus,
    strip_prefix, trim,
};
use agent_seat_linux::typing::modifier_definition;

#[test]
fn common_keys_are_mapped() {
    assert_eq!(keysym_for_key("Enter"), Some(0xff0d));
    assert_eq!(keysym_for_key("Ctrl"), Some(0xffe3));
    assert_eq!(keysym_for_key("F12"), Some(0xffc9));
    assert_eq!(keysym_for_key("A"), Some(u32::from(b'A')));
    assert_eq!(keysym_for_key("unknown"), None);
}

#[test]
fn every_named_key_has_its_keysym() {
    let table = [
        ("return", 0xff0d),
        ("tab", 0xff09),
        ("escape", 0xff1b),
        ("ESC", 0xff1b),
        ("backspace", 0xff08),
        ("delete", 0xffff),
        ("del", 0xffff),
        ("insert", 0xff63),
        ("home", 0xff50),
        ("end", 0xff57),
        ("pageup", 0xff55),
        ("page_up", 0xff55),
        ("pagedown", 0xff56),
        ("page_down", 0xff56),
        ("left", 0xff51),
        ("up", 0xff52),
        ("right", 0xff53),
        ("down", 0xff54),
        ("shift", 0xffe1),
        ("shift_left", 0xffe1),
        ("shiftright", 0xffe2),
        ("control", 0xffe3),
        ("control_right", 0xffe4),
        ("alt", 0xffe9),
        ("option", 0xffe9),
        ("alt_right", 0xffea),
        ("super", 0xffeb),
        ("cmd", 0xffeb),
        ("meta", 0xffeb),
        ("superright", 0xffec),
        ("space", 0x20),
        ("caps_lock", 0xffe5),
    ];
    for (name, keysym) in table {
        assert_eq!(keysym_for_key(name), Some(keysym), "{name}");
    }
}

#[test]
fn single_characters_keep_their_case() {
    assert_eq!(keysym_for_key("a"), Some(0x61));
    assert_eq!(keysym_for_key(" Z "), Some(0x5a));
    assert_eq!(keysym_for_key("1"), Some(0x31));
    assert_eq!(keysym_for_key("+"), Some(0x2b));
    assert_eq!(keysym_for_key("é"), None);
    assert_eq!(keysym_for_key(""), None);
    assert_eq!(keysym_for_key("   "), None);
}

#[test]
fn function_keys_run_from_one_to_twenty_four() {
    assert_eq!(keysym_for_key("f1"), Some(0xffbe));
    assert_eq!(keysym_for_key("F24"), Some(0xffd5));
    assert_eq!(keysym_for_key("f+5"), Some(0xffc2));
    assert_eq!(keysym_for_key("f0"), None);
    assert_eq!(keysym_for_key("f25"), None);
    assert_eq!(keysym_for_key("f99999999999"), None);
    assert_eq!(keysym_for_key("fx"), None);
}

#[test]
fn names_are_lowered_beyond_ascii() {
    // The Kelvin sign becomes a plain letter in lower case.
    assert_eq!(keysym_for_key("bac\u{212a}space"), Some(0xff08));
}

#[test]
fn modifier_names_are_portable() {
    assert_eq!(modifier_definition(" Shift "), Some(("shift", "Shift")));
    assert_eq!(modifier_definition("CONTROL"), Some(("ctrl", "Control")));
    assert_eq!(modifier_definition("ctrl"), Some(("ctrl", "Control")));
    assert_eq!(modifier_definition("option"), Some(("alt", "Mod1")));
    assert_eq!(modifier_definition("alt"), Some(("alt", "Mod1")));
    assert_eq!(modifier_definition("command"), Some(("super", "Mod4")));
    assert_eq!(modifier_definition("cmd"), Some(("super", "Mod4")));
    assert_eq!(modifier_definition("meta"), Some(("super", "Mod4")));
    assert_eq!(modifier_definition("super"), Some(("super", "Mod4")));
    assert_eq!(modifier_definition("hyper"), None);
    assert_eq!(modifier_definition(""), None);
}

#[test]
fn modifier_masks_need_a_bit() {
    assert_eq!(modifier_mask(0, "Shift"), Ok(1));
    assert_eq!(modifier_mask(31, "Mod4"), Ok(0x8000_0000));
    assert_eq!(
        modifier_mask(32, "Mod4"),
        Err(String::from("invalid modifier index 32 for 'Mod4'"))
    );
    assert_eq!(
        modifier_mask(NO_MODIFIER, "Mod1"),
        Err(String::from("keyboard layout has no 'Mod1' modifier"))
    );
}

fn small_table() -> KeyTable {
    KeyTable {
        min: 8,
        base: vec![vec![], vec![0x61], vec![0x62, 0x63], vec![0xffe1]],
        shifted: vec![vec![0x63], vec![0x41], vec![], vec![]],
        shift_index: 0,
        control_index: 2,
        mod1_index: 3,
        mod4_index: 6,
    }
}

#[test]
fn the_first_key_that_yields_a_keysym_is_found() {
    let table = small_table();
    assert_eq!(table.find_keycode_for_keysym(0x61), Some(9));
    assert_eq!(table.find_keycode_for_keysym(0x63), Some(10));
    assert_eq!(table.find_keycode_for_keysym(0x41), None);
    let plain = table.resolve(0x61).unwrap();
    assert_eq!((plain.keycode, plain.needs_shift), (9, false));
    let shifted = table.resolve(0x41).unwrap();
    assert_eq!((shifted.keycode, shifted.needs_shift), (9, true));
    // Keys are tried in order, each without Shift before with Shift.
    let early = table.resolve(0x63).unwrap();
    assert_eq!((early.keycode, early.needs_shift), (8, true));
    assert!(table.resolve(0x7a).is_none());
}

#[test]
fn a_text_run_is_resolved_at_once() {
    let table = small_table();
    let resolved = resolve_text(&table, &vec![0x61, 0x41, 0x7a]);
    assert_eq!(resolved.shift_keycode, Some(11));
    assert_eq!(resolved.shift_mask, 1);
    assert_eq!(resolved.resolutions.len(), 3);
    assert!(resolved.resolutions[2].is_none());
    let mut without = small_table();
    without.shift_index = NO_MODIFIER;
    assert_eq!(resolve_text(&without, &vec![]).shift_mask, 1);
    let mut other = small_table();
    other.shift_index = 4;
    assert_eq!(resolve_text(&other, &vec![]).shift_mask, 16);
}

#[test]
fn key_tables_are_checked() {
    assert!(small_table().checked().is_some());
    let mut uneven = small_table();
    uneven.shifted.pop();
    assert!(uneven.checked().is_none());
    let mut beyond = small_table();
    beyond.min = u32::MAX;
    assert!(beyond.checked().is_none());
    let mut wide = small_table();
    wide.shift_index = 32;
    assert!(wide.checked().is_none());
    let mut absent = small_table();
    absent.shift_index = NO_MODIFIER;
    assert!(absent.checked().is_some());
}

#[test]
fn modifier_indices_are_looked_up_by_name() {
    let table = small_table();
    assert_eq!(table.modifier_index("Shift"), 0);
    assert_eq!(table.modifier_index("Control"), 2);
    assert_eq!(table.modifier_index("Mod1"), 3);
    assert_eq!(table.modifier_index("Mod4"), 6);
    assert_eq!(table.modifier_index("Mod5"), NO_MODIFIER);
}

#[test]
fn layout_text_ends_at_the_padding() {
    assert_eq!(keymap_text(b"xkb_keymap\0\0\0"), "xkb_keymap");
    assert_eq!(keymap_text(b"whole"), "whole");
    assert_eq!(keymap_text(b"\0hidden"), "");
    assert_eq!(keymap_text(b"a\xffb"), "a\u{fffd}b");
}

#[test]
fn lists_are_split_and_trimmed() {
    assert_eq!(split_plus(" ctrl + shift++p "), vec!["ctrl", "shift", "p"]);
    assert!(split_plus("").is_empty());
    assert!(split_plus(" + ").is_empty());
    assert_eq!(split("a-b--c", '-'), vec!["a", "b", "", "c"]);
    assert_eq!(split("", '-'), vec![""]);
    assert_eq!(trim("\t \u{3000}x\u{a0}\n"), "x");
    assert_eq!(trim("   "), "");
}

#[test]
fn numbers_are_written_and_read() {
    assert_eq!(decimal_text(0), "0");
    assert_eq!(decimal_text(u64::MAX), u64::MAX.to_string());
    assert_eq!(signed_text(-7), "-7");
    assert_eq!(signed_text(i64::MIN), i64::MIN.to_string());
    assert_eq!(prefixed_hex_text(0), "0x0");
    assert_eq!(prefixed_hex_text(0xff0d), "0xff0d");
    for text in ["0", "007", "+5", "4294967295", "4294967296", "", "+", "-1", "1 ", "x"] {
        assert_eq!(parse_u32(text), text.parse::<u32>().ok(), "{text}");
    }
    assert_eq!(strip_prefix("X10", "X"), Some("10"));
    assert_eq!(strip_prefix("10", "X"), None);
    assert_eq!(decoded(&b"ok".to_vec()), Some(String::from("ok")));
    assert_eq!(decoded(&vec![0xff]), None);
}
