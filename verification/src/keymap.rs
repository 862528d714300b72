//! Key names and the X keysyms that they stand for.
use crate::text::{chars_of, parse_u32, same_text, strip_prefix, trim};
use vstd::prelude::*;

verus! {

/// The lower-case form of a text, as Unicode defines it.
pub uninterp spec fn lowercase(s: Seq<char>) -> Seq<char>;

/// A character with ASCII capitals made small.
pub open spec fn ascii_lower_char(c: char) -> char {
    if 'A' <= c <= 'Z' {
        (c as u32 + 32) as char
    } else {
        c
    }
}

/// A text with its ASCII capitals made small.
pub open spec fn ascii_lower(s: Seq<char>) -> Seq<char> {
    Seq::new(s.len(), |i: int| ascii_lower_char(s[i]))
}

/// Whether every character of a text is ASCII.
pub open spec fn ascii_text(s: Seq<char>) -> bool {
    forall|i: int| 0 <= i < s.len() ==> (#[trigger] s[i] as u32) < 128
}

/// `str::to_lowercase`: the lower-case form of a text. On ASCII text that is
/// the text with its capitals made small.
#[verifier::external_body]
fn to_lowercase(s: &str) -> (lower: String)
    ensures
        lower@ == lowercase(s@),
        ascii_text(s@) ==> lower@ == ascii_lower(s@),
{
    s.to_lowercase()
}

/// Make the ASCII capitals of a text small.
pub fn to_ascii_lower(s: &str) -> (lower: String)
    ensures
        lower@ == ascii_lower(s@),
{
    let mut lower: String = String::new();
    assert(lower@ =~= ascii_lower(s@.take(0)));
    for c in it: s.chars()
        invariant
            it.seq() == s@,
            lower@ == ascii_lower(s@.take(it.index())),
    {
        let ghost before = lower@;
        if 'A' <= c && c <= 'Z' {
            lower.push((c as u8 + 32u8) as char);
        } else {
            lower.push(c);
        }
        assert(lower@ =~= ascii_lower(s@.take(it.index() + 1)));
    }
    assert(s@.take(s@.len() as int) =~= s@);
    lower
}

/// The keysym of a key that has a fixed name, given in small letters.
pub open spec fn fixed_keysym(s: Seq<char>) -> Option<u32> {
    if s == "return"@ || s == "enter"@ {
        Some(0xff0d)
    } else if s == "tab"@ {
        Some(0xff09)
    } else if s == "escape"@ || s == "esc"@ {
        Some(0xff1b)
    } else if s == "backspace"@ {
        Some(0xff08)
    } else if s == "delete"@ || s == "del"@ {
        Some(0xffff)
    } else if s == "insert"@ {
        Some(0xff63)
    } else if s == "home"@ {
        Some(0xff50)
    } else if s == "end"@ {
        Some(0xff57)
    } else if s == "pageup"@ || s == "page_up"@ {
        Some(0xff55)
    } else if s == "pagedown"@ || s == "page_down"@ {
        Some(0xff56)
    } else if s == "left"@ {
        Some(0xff51)
    } else if s == "up"@ {
        Some(0xff52)
    } else if s == "right"@ {
        Some(0xff53)
    } else if s == "down"@ {
        Some(0xff54)
    } else if s == "shift"@ || s == "shiftleft"@ || s == "shift_left"@ {
        Some(0xffe1)
    } else if s == "shiftright"@ || s == "shift_right"@ {
        Some(0xffe2)
    } else if s == "control"@ || s == "ctrl"@ || s == "controlleft"@ || s == "control_left"@ {
        Some(0xffe3)
    } else if s == "controlright"@ || s == "control_right"@ {
        Some(0xffe4)
    } else if s == "alt"@ || s == "altleft"@ || s == "alt_left"@ || s == "option"@ {
        Some(0xffe9)
    } else if s == "altright"@ || s == "alt_right"@ {
        Some(0xffea)
    } else if s == "super"@ || s == "cmd"@ || s == "command"@ || s == "meta"@ || s == "superleft"@ || s == "super_left"@ {
        Some(0xffeb)
    } else if s == "superright"@ || s == "super_right"@ {
        Some(0xffec)
    } else if s == "space"@ {
        Some(0x0020)
    } else if s == "capslock"@ || s == "caps_lock"@ {
        Some(0xffe5)
    } else {
        None
    }
}

/// The keysym of a function key: `f` and a number from 1 to 24.
pub open spec fn function_keysym(s: Seq<char>) -> Option<u32> {
    if s.len() > 0 && s[0] == 'f' {
        match crate::text::parsed(s.skip(1)) {
            Some(number) => if 1 <= number <= 24 {
                Some((0xffbe + number - 1) as u32)
            } else {
                None
            },
            None => None,
        }
    } else {
        None
    }
}

/// The keysym of a key name given in small letters.
pub open spec fn named_keysym(s: Seq<char>) -> Option<u32> {
    match fixed_keysym(s) {
        Some(keysym) => Some(keysym),
        None => function_keysym(s),
    }
}

/// The keysym of a key name. One ASCII character stands for itself; every
/// other name is looked up in small letters.
pub open spec fn keysym_of(name: Seq<char>) -> Option<u32> {
    let key = crate::text::trimmed(name);
    if key.len() == 1 && (key[0] as u32) < 128 {
        Some(key[0] as u32)
    } else {
        named_keysym(lowercase(key))
    }
}

fn fixed_key(name: &str) -> (keysym: Option<u32>)
    ensures
        keysym == fixed_keysym(name@),
{
    if same_text(name, "return") || same_text(name, "enter") {
        Some(0xff0d)
    } else if same_text(name, "tab") {
        Some(0xff09)
    } else if same_text(name, "escape") || same_text(name, "esc") {
        Some(0xff1b)
    } else if same_text(name, "backspace") {
        Some(0xff08)
    } else if same_text(name, "delete") || same_text(name, "del") {
        Some(0xffff)
    } else if same_text(name, "insert") {
        Some(0xff63)
    } else if same_text(name, "home") {
        Some(0xff50)
    } else if same_text(name, "end") {
        Some(0xff57)
    } else if same_text(name, "pageup") || same_text(name, "page_up") {
        Some(0xff55)
    } else if same_text(name, "pagedown") || same_text(name, "page_down") {
        Some(0xff56)
    } else if same_text(name, "left") {
        Some(0xff51)
    } else if same_text(name, "up") {
        Some(0xff52)
    } else if same_text(name, "right") {
        Some(0xff53)
    } else if same_text(name, "down") {
        Some(0xff54)
    } else if same_text(name, "shift") || same_text(name, "shiftleft") || same_text(name, "shift_left") {
        Some(0xffe1)
    } else if same_text(name, "shiftright") || same_text(name, "shift_right") {
        Some(0xffe2)
    } else if same_text(name, "control") || same_text(name, "ctrl") || same_text(name, "controlleft") || same_text(name, "control_left") {
        Some(0xffe3)
    } else if same_text(name, "controlright") || same_text(name, "control_right") {
        Some(0xffe4)
    } else if same_text(name, "alt") || same_text(name, "altleft") || same_text(name, "alt_left") || same_text(name, "option") {
        Some(0xffe9)
    } else if same_text(name, "altright") || same_text(name, "alt_right") {
        Some(0xffea)
    } else if same_text(name, "super") || same_text(name, "cmd") || same_text(name, "command") || same_text(name, "meta") || same_text(name, "superleft") || same_text(name, "super_left") {
        Some(0xffeb)
    } else if same_text(name, "superright") || same_text(name, "super_right") {
        Some(0xffec)
    } else if same_text(name, "space") {
        Some(0x0020)
    } else if same_text(name, "capslock") || same_text(name, "caps_lock") {
        Some(0xffe5)
    } else {
        None
    }
}

/// The keysym of a key name given in small letters.
pub fn keysym_for_lowercase(name: &str) -> (keysym: Option<u32>)
    ensures
        keysym == named_keysym(name@),
{
    let fixed: Option<u32> = fixed_key(name);
    if fixed.is_some() {
        return fixed;
    }
    proof {
        reveal_strlit("f");
        assert(name@.len() > 0 ==> name@.take(1) =~= seq![name@[0]]);
        assert("f"@ =~= seq!['f']);
        if name@.len() > 0 && name@[0] != 'f' {
            assert(name@.take(1)[0] != "f"@[0]);
        }
    }
    match strip_prefix(name, "f") {
        Some(rest) => match parse_u32(rest) {
            Some(number) => if 1 <= number && number <= 24 {
                Some(0xffbe + number - 1)
            } else {
                None
            },
            None => None,
        },
        None => None,
    }
}

/// X keysym for a named key.
pub fn keysym_for_key(name: &str) -> (keysym: Option<u32>)
    ensures
        keysym == keysym_of(name@),
        ascii_text(crate::text::trimmed(name@)) && crate::text::trimmed(name@).len() != 1
            ==> keysym == named_keysym(ascii_lower(crate::text::trimmed(name@))),
{
    let key: &str = trim(name);
    let chars: Vec<char> = chars_of(key);
    if chars.len() == 1 && (chars[0] as u32) < 128 {
        return Some(chars[0] as u32);
    }
    let normalized: String = to_lowercase(key);
    keysym_for_lowercase(normalized.as_str())
}

} // verus!
