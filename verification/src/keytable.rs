//! The application's keyboard layout, as a table of keysyms.
use crate::text::{decimal_text, from_utf8_lossy, join3, join4};
use vstd::prelude::*;

verus! {

/// Keysym of the left Shift key.
pub const KEYSYM_SHIFT_L: u32 = 0xffe1;

/// The index that stands for a modifier the layout does not have.
pub const NO_MODIFIER: u32 = 0xffff_ffff;

/// A compiled keyboard layout: for each keycode, starting at `min`, the
/// keysyms without and with Shift, and the indices of the real modifiers.
pub struct KeyTable {
    pub min: u32,
    pub base: Vec<Vec<u32>>,
    pub shifted: Vec<Vec<u32>>,
    pub shift_index: u32,
    pub control_index: u32,
    pub mod1_index: u32,
    pub mod4_index: u32,
}

/// How a layout produces a character: a key, and whether Shift is held.
#[derive(Clone, Copy, Debug, PartialEq, Eq, Structural)]
pub struct CharResolution {
    pub keycode: u32,
    pub needs_shift: bool,
}

impl KeyTable {
    /// Both levels cover the same keycodes, and every keycode is a `u32`.
    pub open spec fn wf(self) -> bool {
        &&& self.base@.len() == self.shifted@.len()
        &&& self.min + self.base@.len() <= u32::MAX + 1
    }

    /// Whether the key at a position yields a keysym without Shift.
    pub open spec fn plain(self, i: int, keysym: u32) -> bool {
        self.base@[i]@.contains(keysym)
    }

    /// Whether the key at a position yields a keysym with Shift.
    pub open spec fn with_shift(self, i: int, keysym: u32) -> bool {
        self.shifted@[i]@.contains(keysym)
    }

    /// The first keycode, from a position on, that yields a keysym without
    /// Shift.
    pub open spec fn keycode_from(self, i: int, keysym: u32) -> Option<u32>
        decreases self.base@.len() - i,
    {
        if i < 0 || i >= self.base@.len() {
            None
        } else if self.plain(i, keysym) {
            Some((self.min + i) as u32)
        } else {
            self.keycode_from(i + 1, keysym)
        }
    }

    /// The first keycode that yields a keysym without Shift.
    pub open spec fn keycode(self, keysym: u32) -> Option<u32> {
        self.keycode_from(0, keysym)
    }

    /// The first way, from a position on, to produce a keysym: at each key
    /// without Shift, then with Shift.
    pub open spec fn resolution_from(self, i: int, keysym: u32) -> Option<CharResolution>
        decreases self.base@.len() - i,
    {
        if i < 0 || i >= self.base@.len() {
            None
        } else if self.plain(i, keysym) {
            Some(CharResolution { keycode: (self.min + i) as u32, needs_shift: false })
        } else if self.with_shift(i, keysym) {
            Some(CharResolution { keycode: (self.min + i) as u32, needs_shift: true })
        } else {
            self.resolution_from(i + 1, keysym)
        }
    }

    /// The first way to produce a keysym.
    pub open spec fn resolution(self, keysym: u32) -> Option<CharResolution> {
        self.resolution_from(0, keysym)
    }

    /// The index of a real modifier.
    pub open spec fn index_of(self, name: Seq<char>) -> u32 {
        if name == "Shift"@ {
            self.shift_index
        } else if name == "Control"@ {
            self.control_index
        } else if name == "Mod1"@ {
            self.mod1_index
        } else if name == "Mod4"@ {
            self.mod4_index
        } else {
            NO_MODIFIER
        }
    }

    /// The mask that announces a held Shift key. A layout without the Shift
    /// modifier uses the first bit.
    pub open spec fn shift_mask(self) -> u32 {
        if self.shift_index == NO_MODIFIER {
            1
        } else {
            1u32 << self.shift_index
        }
    }

    /// The Shift modifier is absent or has a bit of its own.
    pub open spec fn shift_fits(self) -> bool {
        self.shift_index == NO_MODIFIER || self.shift_index < 32
    }
}

impl KeyTable {
    /// This table, where it is one.
    pub fn checked(self) -> (table: Option<Self>)
        ensures
            table == (if self.wf() && self.shift_fits() {
                Some(self)
            } else {
                None
            }),
    {
        let rows: u64 = self.base.len() as u64;
        let limit: u64 = u32::MAX as u64 + 1;
        let fits: bool = rows <= limit && self.min as u64 + rows <= limit;
        if self.base.len() == self.shifted.len() && fits && (self.shift_index == NO_MODIFIER
            || self.shift_index < 32) {
            Some(self)
        } else {
            None
        }
    }
}

/// The bit of a modifier with a given index, where there is one.
pub open spec fn mask_of(index: u32) -> Option<u32> {
    if index < 32 {
        Some(1u32 << index)
    } else {
        None
    }
}

/// Why a modifier has no bit.
pub open spec fn mask_error(index: u32, name: Seq<char>) -> Seq<char> {
    if index == NO_MODIFIER {
        "keyboard layout has no '"@ + name + "' modifier"@
    } else {
        "invalid modifier index "@ + crate::text::decimal(index as nat) + " for '"@ + name + "'"@
    }
}

/// The mask of a modifier, by the index that the layout gives it.
pub fn modifier_mask(index: u32, xkb_name: &str) -> (mask: Result<u32, String>)
    ensures
        match mask {
            Ok(mask) => mask_of(index) == Some(mask),
            Err(error) => mask_of(index) is None && error@ == mask_error(index, xkb_name@),
        },
{
    if index == NO_MODIFIER {
        return Err(join3("keyboard layout has no '", xkb_name, "' modifier"));
    }
    if index < 32 {
        Ok(1u32 << index)
    } else {
        let number: String = decimal_text(index as u64);
        let mut error: String = join4(
            "invalid modifier index ",
            number.as_str(),
            " for '",
            xkb_name,
        );
        error.append("'");
        Err(error)
    }
}

fn holds(keysyms: &Vec<u32>, keysym: u32) -> (found: bool)
    ensures
        found == keysyms@.contains(keysym),
{
    let mut i: usize = 0;
    while i < keysyms.len()
        invariant
            i <= keysyms.len(),
            forall|j: int| 0 <= j < i ==> keysyms@[j] != keysym,
        decreases keysyms.len() - i,
    {
        if keysyms[i] == keysym {
            assert(keysyms@[i as int] == keysym);
            return true;
        }
        i = i + 1;
    }
    false
}

impl KeyTable {
    /// Locate the keycode that produces a keysym without Shift.
    pub fn find_keycode_for_keysym(&self, keysym: u32) -> (keycode: Option<u32>)
        requires
            self.wf(),
        ensures
            keycode == self.keycode(keysym),
    {
        let mut i: usize = 0;
        while i < self.base.len()
            invariant
                i <= self.base.len(),
                self.wf(),
                self.keycode(keysym) == self.keycode_from(i as int, keysym),
            decreases self.base.len() - i,
        {
            if holds(&self.base[i], keysym) {
                return Some((self.min as u64 + i as u64) as u32);
            }
            i = i + 1;
        }
        None
    }

    /// Find the key that produces a keysym, without or with Shift.
    pub fn resolve(&self, keysym: u32) -> (found: Option<CharResolution>)
        requires
            self.wf(),
        ensures
            found == self.resolution(keysym),
    {
        let mut i: usize = 0;
        while i < self.base.len()
            invariant
                i <= self.base.len(),
                self.wf(),
                self.resolution(keysym) == self.resolution_from(i as int, keysym),
            decreases self.base.len() - i,
        {
            if holds(&self.base[i], keysym) {
                return Some(
                    CharResolution {
                        keycode: (self.min as u64 + i as u64) as u32,
                        needs_shift: false,
                    },
                );
            }
            if holds(&self.shifted[i], keysym) {
                return Some(
                    CharResolution {
                        keycode: (self.min as u64 + i as u64) as u32,
                        needs_shift: true,
                    },
                );
            }
            i = i + 1;
        }
        None
    }

    /// The index that the layout gives a real modifier.
    pub fn modifier_index(&self, xkb_name: &str) -> (index: u32)
        ensures
            index == self.index_of(xkb_name@),
    {
        if crate::text::same_text(xkb_name, "Shift") {
            self.shift_index
        } else if crate::text::same_text(xkb_name, "Control") {
            self.control_index
        } else if crate::text::same_text(xkb_name, "Mod1") {
            self.mod1_index
        } else if crate::text::same_text(xkb_name, "Mod4") {
            self.mod4_index
        } else {
            NO_MODIFIER
        }
    }
}

/// A text run resolved against a layout.
pub struct TextResolution {
    pub shift_keycode: Option<u32>,
    /// Bit that is set in a modifiers event while Shift is held.
    pub shift_mask: u32,
    pub resolutions: Vec<Option<CharResolution>>,
}

/// Find, for each keysym of a text run, the key that produces it; also the
/// Shift key and the mask that announces it.
pub fn resolve_text(table: &KeyTable, keysyms: &Vec<u32>) -> (resolved: TextResolution)
    requires
        table.wf(),
        table.shift_fits(),
    ensures
        resolved.shift_keycode == table.keycode(KEYSYM_SHIFT_L),
        resolved.shift_mask == table.shift_mask(),
        resolved.resolutions@ == Seq::new(keysyms@.len(), |i: int| table.resolution(keysyms@[i])),
{
    let shift_mask: u32 = if table.shift_index == NO_MODIFIER {
        1
    } else {
        1u32 << table.shift_index
    };
    let shift_keycode: Option<u32> = table.find_keycode_for_keysym(KEYSYM_SHIFT_L);
    let mut resolutions: Vec<Option<CharResolution>> = Vec::new();
    let mut i: usize = 0;
    while i < keysyms.len()
        invariant
            i <= keysyms.len(),
            table.wf(),
            resolutions@ == Seq::new(i as nat, |j: int| table.resolution(keysyms@[j])),
        decreases keysyms.len() - i,
    {
        resolutions.push(table.resolve(keysyms[i]));
        i = i + 1;
    }
    TextResolution { shift_keycode, shift_mask, resolutions }
}

/// A keycode found for a keysym is the first one whose key yields it without
/// Shift; none is found exactly where no key does.
pub proof fn law_keycode_is_first(table: KeyTable, keysym: u32)
    requires
        table.wf(),
    ensures
        match table.keycode(keysym) {
            Some(keycode) => {
                let i = keycode - table.min;
                &&& 0 <= i < table.base@.len()
                &&& table.plain(i, keysym)
                &&& forall|j: int| 0 <= j < i ==> !table.plain(j, keysym)
            },
            None => forall|j: int| 0 <= j < table.base@.len() ==> !table.plain(j, keysym),
        },
{
    lemma_keycode_from(table, 0, keysym);
}

proof fn lemma_keycode_from(table: KeyTable, from: int, keysym: u32)
    requires
        table.wf(),
        0 <= from <= table.base@.len(),
    ensures
        match table.keycode_from(from, keysym) {
            Some(keycode) => {
                let i = keycode - table.min;
                &&& from <= i < table.base@.len()
                &&& table.plain(i, keysym)
                &&& forall|j: int| from <= j < i ==> !table.plain(j, keysym)
            },
            None => forall|j: int| from <= j < table.base@.len() ==> !table.plain(j, keysym),
        },
    decreases table.base@.len() - from,
{
    if from < table.base@.len() && !table.plain(from, keysym) {
        lemma_keycode_from(table, from + 1, keysym);
    }
}

/// A resolution names a key that yields the keysym at the level it says, and
/// no earlier key yields it at either level; without one, no key does.
pub proof fn law_resolution_is_first(table: KeyTable, keysym: u32)
    requires
        table.wf(),
    ensures
        match table.resolution(keysym) {
            Some(found) => {
                let i = found.keycode - table.min;
                &&& 0 <= i < table.base@.len()
                &&& !found.needs_shift ==> table.plain(i, keysym)
                &&& found.needs_shift ==> table.with_shift(i, keysym) && !table.plain(i, keysym)
                &&& forall|j: int|
                    0 <= j < i ==> !table.plain(j, keysym) && !table.with_shift(j, keysym)
            },
            None => forall|j: int|
                0 <= j < table.base@.len() ==> !table.plain(j, keysym) && !table.with_shift(
                    j,
                    keysym,
                ),
        },
{
    lemma_resolution_from(table, 0, keysym);
}

proof fn lemma_resolution_from(table: KeyTable, from: int, keysym: u32)
    requires
        table.wf(),
        0 <= from <= table.base@.len(),
    ensures
        match table.resolution_from(from, keysym) {
            Some(found) => {
                let i = found.keycode - table.min;
                &&& from <= i < table.base@.len()
                &&& !found.needs_shift ==> table.plain(i, keysym)
                &&& found.needs_shift ==> table.with_shift(i, keysym) && !table.plain(i, keysym)
                &&& forall|j: int|
                    from <= j < i ==> !table.plain(j, keysym) && !table.with_shift(j, keysym)
            },
            None => forall|j: int|
                from <= j < table.base@.len() ==> !table.plain(j, keysym) && !table.with_shift(
                    j,
                    keysym,
                ),
        },
    decreases table.base@.len() - from,
{
    if from < table.base@.len() && !table.plain(from, keysym) && !table.with_shift(from, keysym) {
        lemma_resolution_from(table, from + 1, keysym);
    }
}

// ---------------------------------------------------------------------------
// The layout's text
// ---------------------------------------------------------------------------

/// Where a text in a zero-padded buffer ends, from a position on.
pub open spec fn end_from(bytes: Seq<u8>, i: int) -> int
    decreases bytes.len() - i,
{
    if i < 0 || i >= bytes.len() || bytes[i] == 0 {
        i
    } else {
        end_from(bytes, i + 1)
    }
}

/// The bytes of a zero-padded buffer before its first zero.
pub open spec fn before_padding(bytes: Seq<u8>) -> Seq<u8> {
    bytes.take(end_from(bytes, 0))
}

/// The text of a layout, which comes in a zero-padded buffer.
pub fn keymap_text(bytes: &[u8]) -> (text: String)
    ensures
        text@ == crate::text::lossy(before_padding(bytes@)),
{
    let mut kept: Vec<u8> = Vec::new();
    let mut i: usize = 0;
    while i < bytes.len() && bytes[i] != 0
        invariant
            i <= bytes@.len(),
            kept@ == bytes@.take(i as int),
            end_from(bytes@, 0) == end_from(bytes@, i as int),
        decreases bytes@.len() - i,
    {
        kept.push(bytes[i]);
        i = i + 1;
        assert(kept@ =~= bytes@.take(i as int));
    }
    from_utf8_lossy(kept.as_slice())
}

} // verus!
