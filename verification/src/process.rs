//! Helper processes: where executables are and which X display is free.
use crate::bytes::bytes_of;
use crate::paths::join_bytes;
use crate::text::{decimal_text, decoded, join2, join3, parse_u32, strip_prefix};
use vstd::prelude::*;

verus! {

// ---------------------------------------------------------------------------
// Executables
// ---------------------------------------------------------------------------

/// The byte that separates the directories of a search path.
pub const COLON: u8 = 58;

/// The directories of a search path: a colon opens a new one, every other
/// byte extends the last one.
pub open spec fn directories(path: Seq<u8>) -> Seq<Seq<u8>>
    decreases path.len(),
{
    if path.len() == 0 {
        seq![Seq::<u8>::empty()]
    } else {
        let before = directories(path.drop_last());
        if path.last() == COLON {
            before.push(Seq::<u8>::empty())
        } else {
            before.drop_last().push(before.last().push(path.last()))
        }
    }
}

/// Where an executable may be, in order.
pub open spec fn candidates(path: Seq<u8>, name: Seq<u8>) -> Seq<Seq<u8>> {
    Seq::new(
        directories(path).len(),
        |i: int| crate::paths::below(directories(path)[i], name, crate::paths::SLASH),
    )
}

fn split_directories(path: &Vec<u8>) -> (parts: Vec<Vec<u8>>)
    ensures
        crate::bytes::byte_strings(parts@) == directories(path@),
{
    let mut done: Vec<Vec<u8>> = Vec::new();
    let mut current: Vec<u8> = Vec::new();
    let mut i: usize = 0;
    assert(path@.take(0) =~= Seq::<u8>::empty());
    assert(crate::bytes::byte_strings(done@).push(current@) =~= seq![Seq::<u8>::empty()]);
    while i < path.len()
        invariant
            i <= path.len(),
            crate::bytes::byte_strings(done@).push(current@) == directories(path@.take(i as int)),
        decreases path.len() - i,
    {
        proof {
            assert(path@.take(i + 1).drop_last() =~= path@.take(i as int));
            assert(path@.take(i + 1).last() == path@[i as int]);
            assert(crate::bytes::byte_strings(done@).push(current@).drop_last()
                =~= crate::bytes::byte_strings(done@));
        }
        let byte: u8 = path[i];
        if byte == COLON {
            let ghost before = done@;
            let ghost part = current;
            done.push(current);
            current = Vec::new();
            assert(crate::bytes::byte_strings(done@) =~= crate::bytes::byte_strings(before).push(
                part@,
            ));
            assert(current@ =~= Seq::<u8>::empty());
        } else {
            current.push(byte);
        }
        i = i + 1;
    }
    assert(path@.take(path@.len() as int) =~= path@);
    let ghost before = done@;
    let ghost part = current;
    done.push(current);
    assert(crate::bytes::byte_strings(done@) =~= crate::bytes::byte_strings(before).push(part@));
    done
}

/// Whether a test of a path came out as given.
pub open spec fn tested<E: Fn(&Vec<u8>) -> bool>(is_file: E, path: Seq<u8>, outcome: bool) -> bool {
    exists|tried: Vec<u8>| tried@ == path && #[trigger] call_ensures(is_file, (&tried,), outcome)
}

/// Whether a path was the first of a list to pass the test.
pub open spec fn is_first<E: Fn(&Vec<u8>) -> bool>(is_file: E, list: Seq<Seq<u8>>, at: int) -> bool {
    &&& 0 <= at < list.len()
    &&& tested(is_file, list[at], true)
    &&& forall|before: int| 0 <= before < at ==> tested(is_file, #[trigger] list[before], false)
}

/// Find an executable on a search path: the first candidate that is a file.
/// Without a search path there is none.
pub fn find_executable<E: Fn(&Vec<u8>) -> bool>(path: Option<Vec<u8>>, name: &str, is_file: E) -> (found:
    Option<Vec<u8>>)
    requires
        forall|candidate: &Vec<u8>| call_requires(is_file, (candidate,)),
    ensures
        match (path, found) {
            (None, _) => found is None,
            (Some(path), Some(candidate)) => {
                let list = candidates(path@, crate::bytes::encoded(name@));
                exists|at: int| #[trigger] is_first(is_file, list, at) && candidate@ == list[at]
            },
            (Some(path), None) => {
                let list = candidates(path@, crate::bytes::encoded(name@));
                forall|at: int| 0 <= at < list.len() ==> tested(is_file, #[trigger] list[at], false)
            },
        },
{
    let search: Vec<u8> = match path {
        Some(search) => search,
        None => {
            return None;
        },
    };
    let name_bytes: Vec<u8> = bytes_of(name);
    let parts: Vec<Vec<u8>> = split_directories(&search);
    let ghost list = candidates(search@, name_bytes@);
    assert(list.len() == crate::bytes::byte_strings(parts@).len());
    let mut i: usize = 0;
    while i < parts.len()
        invariant
            i <= parts.len(),
            path == Some(search),
            name_bytes@ == crate::bytes::encoded(name@),
            crate::bytes::byte_strings(parts@) == directories(search@),
            list == candidates(search@, name_bytes@),
            list.len() == parts@.len(),
            forall|candidate: &Vec<u8>| call_requires(is_file, (candidate,)),
            forall|before: int| 0 <= before < i ==> tested(is_file, #[trigger] list[before], false),
        decreases parts.len() - i,
    {
        let candidate: Vec<u8> = join_bytes(&parts[i], &name_bytes);
        assert(crate::bytes::byte_strings(parts@)[i as int] == parts@[i as int]@);
        assert(candidate@ == list[i as int]);
        if is_file(&candidate) {
            assert(tested(is_file, list[i as int], true));
            assert(is_first(is_file, list, i as int));
            assert(list == candidates(path.unwrap()@, crate::bytes::encoded(name@)));
            return Some(candidate);
        }
        assert(tested(is_file, list[i as int], false));
        i = i + 1;
    }
    None
}

// ---------------------------------------------------------------------------
// Displays
// ---------------------------------------------------------------------------

/// The display that a file in the socket directory belongs to.
pub open spec fn display_of(name: Seq<u8>) -> Option<u32> {
    let text = vstd::utf8::decode_utf8(name);
    if vstd::utf8::valid_utf8(name) && crate::text::has_prefix(text, "X"@) {
        crate::text::parsed(text.skip("X"@.len() as int))
    } else {
        None
    }
}

/// Whether a display has a socket.
pub open spec fn has_socket(names: Seq<Seq<u8>>, display: u32) -> bool {
    exists|i: int| 0 <= i < names.len() && #[trigger] display_of(names[i]) == Some(display)
}

fn display_number(name: &Vec<u8>) -> (display: Option<u32>)
    ensures
        display == display_of(name@),
{
    match decoded(name) {
        Some(text) => match strip_prefix(text.as_str(), "X") {
            Some(number) => parse_u32(number),
            None => None,
        },
        None => None,
    }
}

fn is_used(names: &Vec<Vec<u8>>, display: u32) -> (used: bool)
    ensures
        used == has_socket(crate::bytes::byte_strings(names@), display),
{
    let ghost all = crate::bytes::byte_strings(names@);
    let mut i: usize = 0;
    while i < names.len()
        invariant
            i <= names.len(),
            all == crate::bytes::byte_strings(names@),
            forall|j: int| 0 <= j < i ==> #[trigger] display_of(all[j]) != Some(display),
        decreases names.len() - i,
    {
        assert(all[i as int] == names@[i as int]@);
        if display_number(&names[i]) == Some(display) {
            assert(display_of(all[i as int]) == Some(display));
            return true;
        }
        i = i + 1;
    }
    false
}

/// Whether a display is not free: it has a socket, or a lock was found.
pub open spec fn is_taken<L: Fn(u32) -> bool>(
    names: Seq<Seq<u8>>,
    is_locked: L,
    display: u32,
) -> bool {
    has_socket(names, display) || call_ensures(is_locked, (display,), true)
}

/// Pick an X display that has neither a socket nor a lock file: the first one
/// from ten up to, but not including, ninety-nine. `names` are the files of
/// the socket directory.
pub fn pick_free_display<L: Fn(u32) -> bool>(names: &Vec<Vec<u8>>, is_locked: L) -> (display:
    Option<u32>)
    requires
        forall|number: u32| call_requires(is_locked, (number,)),
    ensures
        match display {
            Some(number) => {
                &&& 10 <= number < 99
                &&& !has_socket(crate::bytes::byte_strings(names@), number)
                &&& call_ensures(is_locked, (number,), false)
                &&& forall|before: u32|
                    10 <= before < number ==> #[trigger] is_taken(
                        crate::bytes::byte_strings(names@),
                        is_locked,
                        before,
                    )
            },
            None => forall|number: u32|
                10 <= number < 99 ==> #[trigger] is_taken(
                    crate::bytes::byte_strings(names@),
                    is_locked,
                    number,
                ),
        },
{
    let ghost sockets = crate::bytes::byte_strings(names@);
    let mut number: u32 = 10;
    while number < 99
        invariant
            10 <= number <= 99,
            sockets == crate::bytes::byte_strings(names@),
            forall|number: u32| call_requires(is_locked, (number,)),
            forall|before: u32|
                10 <= before < number ==> #[trigger] is_taken(sockets, is_locked, before),
        decreases 99 - number,
    {
        if !is_used(names, number) && !is_locked(number) {
            return Some(number);
        }
        assert(is_taken(sockets, is_locked, number));
        number = number + 1;
    }
    None
}

/// The lock file of a display.
pub fn lock_path(display: u32) -> (path: String)
    ensures
        path@ == "/tmp/.X"@ + crate::text::decimal(display as nat) + "-lock"@,
{
    let number: String = decimal_text(display as u64);
    join3("/tmp/.X", number.as_str(), "-lock")
}

/// The socket of a display.
pub fn display_socket(display: u32) -> (path: String)
    ensures
        path@ == "/tmp/.X11-unix/X"@ + crate::text::decimal(display as nat),
{
    let number: String = decimal_text(display as u64);
    join2("/tmp/.X11-unix/X", number.as_str())
}

} // verus!
