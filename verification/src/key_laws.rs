//! What holds of key names and layouts.
use crate::keytable::KeyTable;
use vstd::prelude::*;

verus! {

// ---------------------------------------------------------------------------
// Names
// ---------------------------------------------------------------------------

/// A single ASCII character that shows stands for itself, whatever white
/// space is around it.
pub proof fn law_single_characters_stand_for_themselves(name: Seq<char>, c: char)
    requires
        crate::text::trimmed(name) == seq![c],
        (c as u32) < 128,
    ensures
        crate::keymap::keysym_of(name) == Some(c as u32),
{
}

/// The function keys follow one another: `f` and a number from 1 to 24 is the
/// keysym of that number, and no other number names a key.
pub proof fn law_function_keys_follow_one_another(n: nat)
    ensures
        1 <= n <= 24 ==> crate::keymap::named_keysym("f"@ + crate::text::decimal(n)) == Some(
            (0xffbd + n) as u32,
        ),
        n == 0 || 24 < n <= u32::MAX ==> crate::keymap::named_keysym(
            "f"@ + crate::text::decimal(n),
        ) is None,
{
    let name = "f"@ + crate::text::decimal(n);
    reveal_strlit("f");
    crate::text_laws::law_decimals_read_back(n);
    assert(name[0] == 'f');
    assert(name.skip(1) =~= crate::text::decimal(n));
    lemma_no_fixed_name_starts_with_f(name);
}

proof fn lemma_names()
    ensures
        "return"@ == seq!['r', 'e', 't', 'u', 'r', 'n'],
        "enter"@ == seq!['e', 'n', 't', 'e', 'r'],
        "tab"@ == seq!['t', 'a', 'b'],
        "escape"@ == seq!['e', 's', 'c', 'a', 'p', 'e'],
        "esc"@ == seq!['e', 's', 'c'],
        "backspace"@ == seq!['b', 'a', 'c', 'k', 's', 'p', 'a', 'c', 'e'],
        "delete"@ == seq!['d', 'e', 'l', 'e', 't', 'e'],
        "del"@ == seq!['d', 'e', 'l'],
        "insert"@ == seq!['i', 'n', 's', 'e', 'r', 't'],
        "home"@ == seq!['h', 'o', 'm', 'e'],
        "end"@ == seq!['e', 'n', 'd'],
        "pageup"@ == seq!['p', 'a', 'g', 'e', 'u', 'p'],
        "page_up"@ == seq!['p', 'a', 'g', 'e', '_', 'u', 'p'],
        "pagedown"@ == seq!['p', 'a', 'g', 'e', 'd', 'o', 'w', 'n'],
        "page_down"@ == seq!['p', 'a', 'g', 'e', '_', 'd', 'o', 'w', 'n'],
        "left"@ == seq!['l', 'e', 'f', 't'],
        "up"@ == seq!['u', 'p'],
        "right"@ == seq!['r', 'i', 'g', 'h', 't'],
        "down"@ == seq!['d', 'o', 'w', 'n'],
        "space"@ == seq!['s', 'p', 'a', 'c', 'e'],
        "capslock"@ == seq!['c', 'a', 'p', 's', 'l', 'o', 'c', 'k'],
        "caps_lock"@ == seq!['c', 'a', 'p', 's', '_', 'l', 'o', 'c', 'k'],
{
    reveal_strlit("return");
    reveal_strlit("enter");
    reveal_strlit("tab");
    reveal_strlit("escape");
    reveal_strlit("esc");
    reveal_strlit("backspace");
    reveal_strlit("delete");
    reveal_strlit("del");
    reveal_strlit("insert");
    reveal_strlit("home");
    reveal_strlit("end");
    reveal_strlit("pageup");
    reveal_strlit("page_up");
    reveal_strlit("pagedown");
    reveal_strlit("page_down");
    reveal_strlit("left");
    reveal_strlit("up");
    reveal_strlit("right");
    reveal_strlit("down");
    reveal_strlit("space");
    reveal_strlit("capslock");
    reveal_strlit("caps_lock");
}

proof fn lemma_modifier_names()
    ensures
        "shift"@ == seq!['s', 'h', 'i', 'f', 't'],
        "shiftleft"@ == seq!['s', 'h', 'i', 'f', 't', 'l', 'e', 'f', 't'],
        "shift_left"@ == seq!['s', 'h', 'i', 'f', 't', '_', 'l', 'e', 'f', 't'],
        "shiftright"@ == seq!['s', 'h', 'i', 'f', 't', 'r', 'i', 'g', 'h', 't'],
        "shift_right"@ == seq!['s', 'h', 'i', 'f', 't', '_', 'r', 'i', 'g', 'h', 't'],
        "control"@ == seq!['c', 'o', 'n', 't', 'r', 'o', 'l'],
        "ctrl"@ == seq!['c', 't', 'r', 'l'],
        "controlleft"@ == seq!['c', 'o', 'n', 't', 'r', 'o', 'l', 'l', 'e', 'f', 't'],
        "control_left"@ == seq!['c', 'o', 'n', 't', 'r', 'o', 'l', '_', 'l', 'e', 'f', 't'],
        "controlright"@ == seq!['c', 'o', 'n', 't', 'r', 'o', 'l', 'r', 'i', 'g', 'h', 't'],
        "control_right"@ == seq!['c', 'o', 'n', 't', 'r', 'o', 'l', '_', 'r', 'i', 'g', 'h', 't'],
        "alt"@ == seq!['a', 'l', 't'],
        "altleft"@ == seq!['a', 'l', 't', 'l', 'e', 'f', 't'],
        "alt_left"@ == seq!['a', 'l', 't', '_', 'l', 'e', 'f', 't'],
        "option"@ == seq!['o', 'p', 't', 'i', 'o', 'n'],
        "altright"@ == seq!['a', 'l', 't', 'r', 'i', 'g', 'h', 't'],
        "alt_right"@ == seq!['a', 'l', 't', '_', 'r', 'i', 'g', 'h', 't'],
        "super"@ == seq!['s', 'u', 'p', 'e', 'r'],
        "cmd"@ == seq!['c', 'm', 'd'],
        "command"@ == seq!['c', 'o', 'm', 'm', 'a', 'n', 'd'],
        "meta"@ == seq!['m', 'e', 't', 'a'],
        "superleft"@ == seq!['s', 'u', 'p', 'e', 'r', 'l', 'e', 'f', 't'],
        "super_left"@ == seq!['s', 'u', 'p', 'e', 'r', '_', 'l', 'e', 'f', 't'],
        "superright"@ == seq!['s', 'u', 'p', 'e', 'r', 'r', 'i', 'g', 'h', 't'],
        "super_right"@ == seq!['s', 'u', 'p', 'e', 'r', '_', 'r', 'i', 'g', 'h', 't'],
{
    reveal_strlit("shift");
    reveal_strlit("shiftleft");
    reveal_strlit("shift_left");
    reveal_strlit("shiftright");
    reveal_strlit("shift_right");
    reveal_strlit("control");
    reveal_strlit("ctrl");
    reveal_strlit("controlleft");
    reveal_strlit("control_left");
    reveal_strlit("controlright");
    reveal_strlit("control_right");
    reveal_strlit("alt");
    reveal_strlit("altleft");
    reveal_strlit("alt_left");
    reveal_strlit("option");
    reveal_strlit("altright");
    reveal_strlit("alt_right");
    reveal_strlit("super");
    reveal_strlit("cmd");
    reveal_strlit("command");
    reveal_strlit("meta");
    reveal_strlit("superleft");
    reveal_strlit("super_left");
    reveal_strlit("superright");
    reveal_strlit("super_right");
}

proof fn lemma_no_fixed_name_starts_with_f(s: Seq<char>)
    requires
        s.len() > 0,
        s[0] == 'f',
    ensures
        crate::keymap::fixed_keysym(s) is None,
{
    lemma_names();
    lemma_modifier_names();
}

/// Every key with a name of its own is known by that name and its short and
/// spaced forms, and by no other.
#[verifier::rlimit(60)]
pub proof fn law_named_keys_have_their_keysym(s: Seq<char>)
    ensures
        ({
            let keysym = crate::keymap::fixed_keysym(s);
            &&& keysym == Some(0xff0du32) <==> s == "return"@ || s == "enter"@
            &&& keysym == Some(0xff09u32) <==> s == "tab"@
            &&& keysym == Some(0xff1bu32) <==> s == "escape"@ || s == "esc"@
            &&& keysym == Some(0xff08u32) <==> s == "backspace"@
            &&& keysym == Some(0xffffu32) <==> s == "delete"@ || s == "del"@
            &&& keysym == Some(0xff63u32) <==> s == "insert"@
            &&& keysym == Some(0xff50u32) <==> s == "home"@
            &&& keysym == Some(0xff57u32) <==> s == "end"@
            &&& keysym == Some(0xff55u32) <==> s == "pageup"@ || s == "page_up"@
            &&& keysym == Some(0xff56u32) <==> s == "pagedown"@ || s == "page_down"@
            &&& keysym == Some(0xff51u32) <==> s == "left"@
            &&& keysym == Some(0xff52u32) <==> s == "up"@
            &&& keysym == Some(0xff53u32) <==> s == "right"@
            &&& keysym == Some(0xff54u32) <==> s == "down"@
            &&& keysym == Some(0x20u32) <==> s == "space"@
            &&& keysym == Some(0xffe5u32) <==> s == "capslock"@ || s == "caps_lock"@
        }),
{
    lemma_names();
    lemma_modifier_names();
}

/// The modifier keys are known by their names, each side by its own; without
/// a side the left one is meant.
#[verifier::rlimit(60)]
pub proof fn law_modifier_keys_have_two_sides(s: Seq<char>)
    ensures
        ({
            let keysym = crate::keymap::fixed_keysym(s);
            &&& keysym == Some(0xffe1u32) <==> s == "shift"@ || s == "shift"@ + "left"@ || s
                == "shift"@ + "_"@ + "left"@
            &&& keysym == Some(0xffe2u32) <==> s == "shift"@ + "right"@ || s == "shift"@ + "_"@
                + "right"@
            &&& keysym == Some(0xffe3u32) <==> s == "ctrl"@ || s == "control"@ || s == "control"@
                + "left"@ || s == "control"@ + "_"@ + "left"@
            &&& keysym == Some(0xffe4u32) <==> s == "control"@ + "right"@ || s == "control"@
                + "_"@ + "right"@
            &&& keysym == Some(0xffe9u32) <==> s == "option"@ || s == "alt"@ || s == "alt"@
                + "left"@ || s == "alt"@ + "_"@ + "left"@
            &&& keysym == Some(0xffeau32) <==> s == "alt"@ + "right"@ || s == "alt"@ + "_"@
                + "right"@
            &&& keysym == Some(0xffebu32) <==> s == "cmd"@ || s == "command"@ || s == "meta"@ || s
                == "super"@ || s == "super"@ + "left"@ || s == "super"@ + "_"@ + "left"@
            &&& keysym == Some(0xffecu32) <==> s == "super"@ + "right"@ || s == "super"@ + "_"@
                + "right"@
        }),
{
    lemma_names();
    lemma_modifier_names();
    reveal_strlit("_");
    assert("shift"@ + "left"@ =~= "shiftleft"@);
    assert("shift"@ + "_"@ + "left"@ =~= "shift_left"@);
    assert("shift"@ + "right"@ =~= "shiftright"@);
    assert("shift"@ + "_"@ + "right"@ =~= "shift_right"@);
    assert("control"@ + "left"@ =~= "controlleft"@);
    assert("control"@ + "_"@ + "left"@ =~= "control_left"@);
    assert("control"@ + "right"@ =~= "controlright"@);
    assert("control"@ + "_"@ + "right"@ =~= "control_right"@);
    assert("alt"@ + "left"@ =~= "altleft"@);
    assert("alt"@ + "_"@ + "left"@ =~= "alt_left"@);
    assert("alt"@ + "right"@ =~= "altright"@);
    assert("alt"@ + "_"@ + "right"@ =~= "alt_right"@);
    assert("super"@ + "left"@ =~= "superleft"@);
    assert("super"@ + "_"@ + "left"@ =~= "super_left"@);
    assert("super"@ + "right"@ =~= "superright"@);
    assert("super"@ + "_"@ + "right"@ =~= "super_right"@);
}

/// Small letters stay as they are, capitals become their small letters, and
/// nothing else changes, so that names in any case are one name.
pub proof fn law_case_makes_no_difference(s: Seq<char>, i: int)
    requires
        0 <= i < s.len(),
    ensures
        ({
            let lower = crate::keymap::ascii_lower(s);
            &&& lower.len() == s.len()
            &&& 65 <= s[i] as u32 <= 90 ==> lower[i] as u32 == s[i] as u32 + 32
            &&& !(65 <= s[i] as u32 <= 90) ==> lower[i] == s[i]
            &&& crate::keymap::ascii_lower(lower) == lower
        }),
{
    let lower = crate::keymap::ascii_lower(s);
    assert forall|k: int| 0 <= k < s.len() implies crate::keymap::ascii_lower_char(
        #[trigger] lower[k],
    ) == lower[k] by {}
    assert(crate::keymap::ascii_lower(lower) =~= lower);
}

/// A modifier is known by its names, trimmed and in any case: each stands for
/// one key and one modifier of the layout, and no other name does.
pub proof fn law_modifiers_are_known_by_their_names(name: Seq<char>)
    ensures
        ({
            let found = crate::typing::modifier_of(name);
            let s = crate::keymap::ascii_lower(crate::text::trimmed(name));
            &&& found is Some <==> s == "shift"@ || s == "ctrl"@ || s == "control"@ || s == "alt"@
                || s == "option"@ || s == "super"@ || s == "cmd"@ || s == "command"@ || s == "meta"@
            &&& s == "shift"@ ==> found == Some(("shift"@, "Shift"@))
            &&& s == "ctrl"@ || s == "control"@ ==> found == Some(("ctrl"@, "Control"@))
            &&& s == "alt"@ || s == "option"@ ==> found == Some(("alt"@, "Mod1"@))
            &&& s == "super"@ || s == "cmd"@ || s == "command"@ || s == "meta"@ ==> found == Some(
                ("super"@, "Mod4"@),
            )
        }),
{
    lemma_modifier_names();
}

// ---------------------------------------------------------------------------
// Layouts
// ---------------------------------------------------------------------------

/// The key found for a keysym is the first whose symbols without Shift hold
/// it.
pub proof fn law_first_key_with_the_symbol_is_found(table: KeyTable, keysym: u32, i: int)
    requires
        table.wf(),
        0 <= i < table.base@.len(),
    ensures
        table.base@[i]@.contains(keysym) && (forall|j: int|
            0 <= j < i ==> !(#[trigger] table.base@[j])@.contains(keysym)) ==> table.keycode(
            keysym,
        ) == Some((table.min + i) as u32),
        table.keycode(keysym) is None ==> !table.base@[i]@.contains(keysym),
{
    crate::keytable::law_keycode_is_first(table, keysym);
    match table.keycode(keysym) {
        Some(keycode) => {
            let at = keycode - table.min;
            assert(table.plain(at, keysym));
            assert(table.base@[at]@.contains(keysym));
            if table.base@[i]@.contains(keysym) {
                assert(table.plain(i, keysym));
            }
        },
        None => {
            assert(!table.plain(i, keysym));
        },
    }
}

/// A character is typed by the first key that has its symbol on either level,
/// without Shift where both levels have it.
pub proof fn law_first_key_for_a_character_is_found(table: KeyTable, keysym: u32, i: int)
    requires
        table.wf(),
        0 <= i < table.base@.len(),
    ensures
        ({
            let earlier = exists|j: int|
                0 <= j < i && (#[trigger] table.base@[j]@.contains(keysym)
                    || table.shifted@[j]@.contains(keysym));
            let plain = table.base@[i]@.contains(keysym);
            let with_shift = table.shifted@[i]@.contains(keysym);
            &&& !earlier && plain ==> table.resolution(keysym) == Some(
                crate::keytable::CharResolution {
                    keycode: (table.min + i) as u32,
                    needs_shift: false,
                },
            )
            &&& !earlier && !plain && with_shift ==> table.resolution(keysym) == Some(
                crate::keytable::CharResolution {
                    keycode: (table.min + i) as u32,
                    needs_shift: true,
                },
            )
            &&& table.resolution(keysym) is None ==> !plain && !with_shift
        }),
{
    crate::keytable::law_resolution_is_first(table, keysym);
    match table.resolution(keysym) {
        Some(found) => {
            let at = found.keycode - table.min;
            assert(table.plain(at, keysym) || table.with_shift(at, keysym));
            assert(table.base@[at]@.contains(keysym) || table.shifted@[at]@.contains(keysym));
            if table.base@[i]@.contains(keysym) || table.shifted@[i]@.contains(keysym) {
                assert(table.plain(i, keysym) || table.with_shift(i, keysym));
                assert(at <= i);
            }
        },
        None => {
            assert(!table.plain(i, keysym) && !table.with_shift(i, keysym));
        },
    }
}

/// Each real modifier has its own index in the layout, and the bit of that
/// index where there are bits enough.
pub proof fn law_modifiers_have_their_bit(table: KeyTable, index: u32)
    ensures
        table.index_of("Shift"@) == table.shift_index,
        table.index_of("Control"@) == table.control_index,
        table.index_of("Mod1"@) == table.mod1_index,
        table.index_of("Mod4"@) == table.mod4_index,
        index < 32 ==> crate::keytable::mask_of(index) == Some(1u32 << index),
        index >= 32 ==> crate::keytable::mask_of(index) is None,
        table.shift_index == 0xffff_ffff ==> table.shift_mask() == 1,
        table.shift_index < 32 ==> table.shift_mask() == 1u32 << table.shift_index,
{
    reveal_strlit("Shift");
    reveal_strlit("Control");
    reveal_strlit("Mod1");
    reveal_strlit("Mod4");
    assert("Shift"@.len() == 5 && "Control"@.len() == 7 && "Mod1"@.len() == 4 && "Mod4"@.len()
        == 4);
    assert("Mod1"@[3] != "Mod4"@[3]);
}

/// The text of a layout is everything before the padding: no zero is in it,
/// and the buffer is at an end or goes on with a zero.
pub proof fn law_layout_text_ends_at_the_padding(bytes: Seq<u8>)
    ensures
        ({
            let kept = crate::keytable::before_padding(bytes);
            &&& kept.len() <= bytes.len()
            &&& kept == bytes.take(kept.len() as int)
            &&& forall|i: int| 0 <= i < kept.len() ==> #[trigger] bytes[i] != 0
            &&& kept.len() < bytes.len() ==> bytes[kept.len() as int] == 0
        }),
{
    lemma_end(bytes, 0);
}

proof fn lemma_end(bytes: Seq<u8>, from: int)
    requires
        0 <= from <= bytes.len(),
    ensures
        ({
            let end = crate::keytable::end_from(bytes, from);
            &&& from <= end <= bytes.len()
            &&& forall|i: int| from <= i < end ==> #[trigger] bytes[i] != 0
            &&& end < bytes.len() ==> bytes[end] == 0
        }),
    decreases bytes.len() - from,
{
    if from < bytes.len() && bytes[from] != 0 {
        lemma_end(bytes, from + 1);
    }
}

} // verus!
