//! What holds of texts, names, numbers and paths.
use vstd::prelude::*;

verus! {

// ---------------------------------------------------------------------------
// Numbers
// ---------------------------------------------------------------------------

/// A number written in decimal is made of digits, starts with no zero but for
/// zero itself, and denotes the number; read back it gives the number.
pub proof fn law_decimals_read_back(n: nat)
    ensures
        crate::text::all_digits(crate::text::decimal(n)),
        crate::text::digits_value(crate::text::decimal(n)) == n,
        n > 0 ==> crate::text::decimal(n)[0] != '0',
        n <= u32::MAX ==> crate::text::parsed(crate::text::decimal(n)) == Some(n as u32),
    decreases n,
{
    let text = crate::text::decimal(n);
    if n < 10 {
        assert(text.drop_last() =~= Seq::empty());
        assert(crate::text::digits_value(text.drop_last()) == 0);
    } else {
        law_decimals_read_back(n / 10);
        let front = crate::text::decimal(n / 10);
        assert(text.drop_last() =~= front);
        assert(text[0] == front[0]);
        assert forall|i: int| 0 <= i < text.len() implies crate::text::is_digit(#[trigger] text[i]) by {
            if i < front.len() {
                assert(text[i] == front[i]);
            }
        }
    }
    assert(crate::text::is_digit(text[0]));
    assert(text[0] != '+');
}

/// The number that a text gives is that of its digits, behind a sign or
/// none: a text that is anything else, or a number beyond 32 bits, gives
/// nothing.
pub proof fn law_only_numbers_are_parsed(s: Seq<char>)
    ensures
        crate::text::parsed(s) is Some <==> {
            ||| crate::text::all_digits(s) && crate::text::digits_value(s) <= u32::MAX
            ||| s.len() > 0 && s[0] == '+' && crate::text::all_digits(s.skip(1))
                && crate::text::digits_value(s.skip(1)) <= u32::MAX
        },
        crate::text::all_digits(s) && crate::text::parsed(s) is Some ==> crate::text::parsed(
            s,
        ).unwrap() == crate::text::digits_value(s),
        crate::text::all_digits(s) && crate::text::parsed(s) is Some ==> crate::text::parsed(
            seq!['+'] + s,
        ) == crate::text::parsed(s),
        forall|i: int|
            0 <= i < s.len() && crate::text::all_digits(s) ==> 48 <= #[trigger] s[i] as u32
                && s[i] as u32 <= 57,
{
    if s.len() > 0 {
        assert(s.skip(1) =~= s.subrange(1, s.len() as int));
        if crate::text::all_digits(s) {
            assert(crate::text::is_digit(s[0]));
        }
    }
    let signed = seq!['+'] + s;
    assert(signed.subrange(1, signed.len() as int) =~= s);
}

/// What a hexadecimal digit denotes, in small letters.
pub open spec fn hex_digit(c: char) -> int {
    if '0' <= c <= '9' {
        c as u32 - 48
    } else if 'a' <= c <= 'f' {
        c as u32 - 87
    } else {
        -1
    }
}

/// What a run of hexadecimal digits denotes.
pub open spec fn hex_value(s: Seq<char>) -> int
    decreases s.len(),
{
    if s.len() == 0 {
        0
    } else {
        hex_value(s.drop_last()) * 16 + hex_digit(s.last())
    }
}

/// A number written in hexadecimal is made of digits and small letters,
/// starts with no zero but for zero itself, and denotes the number; the
/// prefixed form has `0x` in front.
pub proof fn law_hexadecimals_denote_their_number(n: nat)
    ensures
        hex_value(crate::text::hexadecimal(n)) == n,
        crate::text::hexadecimal(n).len() > 0,
        forall|i: int|
            0 <= i < crate::text::hexadecimal(n).len() ==> 0 <= hex_digit(
                #[trigger] crate::text::hexadecimal(n)[i],
            ) < 16,
        n > 0 ==> crate::text::hexadecimal(n)[0] != '0',
        crate::text::prefixed_hexadecimal(n).len() == crate::text::hexadecimal(n).len() + 2,
        crate::text::prefixed_hexadecimal(n)[0] == '0',
        crate::text::prefixed_hexadecimal(n)[1] == 'x',
        crate::text::prefixed_hexadecimal(n).skip(2) == crate::text::hexadecimal(n),
    decreases n,
{
    reveal_strlit("0x");
    let text = crate::text::hexadecimal(n);
    assert(crate::text::prefixed_hexadecimal(n).skip(2) =~= text);
    if n < 16 {
        assert(text.drop_last() =~= Seq::empty());
        assert(hex_value(text.drop_last()) == 0);
        assert(text.last() == crate::text::digit_char(n as int));
    } else {
        law_hexadecimals_denote_their_number(n / 16);
        let front = crate::text::hexadecimal(n / 16);
        assert(text.drop_last() =~= front);
        assert(text.last() == crate::text::digit_char((n % 16) as int));
        assert(text[0] == front[0]);
        assert forall|i: int| 0 <= i < text.len() implies 0 <= hex_digit(#[trigger] text[i])
            < 16 by {
            if i < front.len() {
                assert(text[i] == front[i]);
            }
        }
    }
}

/// A signed number is its absolute value in decimal, behind a minus where it
/// is negative.
pub proof fn law_signed_numbers_show_their_sign(n: int)
    ensures
        n >= 0 ==> crate::text::digits_value(crate::text::signed_decimal(n)) == n
            && crate::text::all_digits(crate::text::signed_decimal(n)),
        n < 0 ==> {
            let text = crate::text::signed_decimal(n);
            &&& text[0] == '-'
            &&& crate::text::all_digits(text.skip(1))
            &&& crate::text::digits_value(text.skip(1)) == -n
        },
{
    reveal_strlit("-");
    if n >= 0 {
        law_decimals_read_back(n as nat);
    } else {
        law_decimals_read_back((-n) as nat);
        assert(crate::text::signed_decimal(n).skip(1) =~= crate::text::decimal((-n) as nat));
    }
}

// ---------------------------------------------------------------------------
// White space and lists
// ---------------------------------------------------------------------------

/// The white space of Unicode, each character of it.
pub proof fn law_white_space_is_that_of_unicode(c: char)
    ensures
        crate::text::white_space(c) <==> seq![
            0x09u32, 0x0a, 0x0b, 0x0c, 0x0d, 0x20, 0x85, 0xa0, 0x1680, 0x2000, 0x2001, 0x2002,
            0x2003, 0x2004, 0x2005, 0x2006, 0x2007, 0x2008, 0x2009, 0x200a, 0x2028, 0x2029, 0x202f,
            0x205f, 0x3000,
        ].contains(c as u32),
{
    let list = seq![
        0x09u32, 0x0a, 0x0b, 0x0c, 0x0d, 0x20, 0x85, 0xa0, 0x1680, 0x2000, 0x2001, 0x2002, 0x2003,
        0x2004, 0x2005, 0x2006, 0x2007, 0x2008, 0x2009, 0x200a, 0x2028, 0x2029, 0x202f, 0x205f,
        0x3000,
    ];
    if crate::text::white_space(c) {
        let code = c as u32;
        let at: int = if 0x09 <= code <= 0x0d {
            code - 0x09
        } else if code == 0x20 {
            5
        } else if code == 0x85 {
            6
        } else if code == 0xa0 {
            7
        } else if code == 0x1680 {
            8
        } else if 0x2000 <= code <= 0x200a {
            9 + (code - 0x2000)
        } else if 0x2028 <= code <= 0x2029 {
            20 + (code - 0x2028)
        } else if code == 0x202f {
            22
        } else if code == 0x205f {
            23
        } else {
            24
        };
        assert(list[at] == code);
    }
}

proof fn lemma_trim_start(s: Seq<char>) -> (from: int)
    ensures
        0 <= from <= s.len(),
        crate::text::trim_start(s) == s.skip(from),
        forall|i: int| 0 <= i < from ==> crate::text::white_space(#[trigger] s[i]),
        from < s.len() ==> !crate::text::white_space(s[from]),
    decreases s.len(),
{
    if s.len() > 0 && crate::text::white_space(s[0]) {
        let rest = s.subrange(1, s.len() as int);
        let inner = lemma_trim_start(rest);
        assert(rest.skip(inner) =~= s.skip(inner + 1));
        assert forall|i: int| 0 <= i < inner + 1 implies crate::text::white_space(
            #[trigger] s[i],
        ) by {
            if i > 0 {
                assert(s[i] == rest[i - 1]);
            }
        }
        if inner + 1 < s.len() {
            assert(s[inner + 1] == rest[inner]);
        }
        inner + 1
    } else {
        assert(s.skip(0) =~= s);
        0
    }
}

proof fn lemma_trim_end(s: Seq<char>) -> (to: int)
    ensures
        0 <= to <= s.len(),
        crate::text::trim_end(s) == s.take(to),
        forall|i: int| to <= i < s.len() ==> crate::text::white_space(#[trigger] s[i]),
        to > 0 ==> !crate::text::white_space(s[to - 1]),
    decreases s.len(),
{
    if s.len() > 0 && crate::text::white_space(s.last()) {
        let front = s.drop_last();
        let to = lemma_trim_end(front);
        assert(front.take(to) =~= s.take(to));
        assert forall|i: int| to <= i < s.len() implies crate::text::white_space(
            #[trigger] s[i],
        ) by {
            if i < front.len() {
                assert(s[i] == front[i]);
            }
        }
        to
    } else {
        assert(s.take(s.len() as int) =~= s);
        s.len() as int
    }
}

/// Trimming takes away all white space at both ends and nothing else.
pub proof fn law_trimming_takes_only_white_space(s: Seq<char>)
    ensures
        exists|from: int, to: int|
            #![trigger s.subrange(from, to)]
            {
                &&& 0 <= from <= to <= s.len()
                &&& crate::text::trimmed(s) == s.subrange(from, to)
                &&& forall|i: int|
                    0 <= i < from || to <= i < s.len() ==> crate::text::white_space(#[trigger] s[i])
                &&& from < to ==> !crate::text::white_space(s[from])
                    && !crate::text::white_space(s[to - 1])
            },
        forall|i: int|
            0 <= i < s.len() && !crate::text::white_space(#[trigger] s[i]) ==> crate::text::trimmed(
                s,
            ).contains(s[i]),
{
    let from = lemma_trim_start(s);
    let rest = s.skip(from);
    let length = lemma_trim_end(rest);
    let to = from + length;
    assert(rest.take(length) =~= s.subrange(from, to));
    assert forall|i: int| 0 <= i < from || to <= i < s.len() implies crate::text::white_space(
        #[trigger] s[i],
    ) by {
        if i >= to {
            assert(rest[i - from] == s[i]);
        }
    }
    if from < to {
        assert(rest[length - 1] == s[to - 1]);
    }
    assert(crate::text::trimmed(s) == s.subrange(from, to));
    assert forall|i: int|
        0 <= i < s.len() && !crate::text::white_space(#[trigger] s[i]) implies crate::text::trimmed(
        s,
    ).contains(s[i]) by {
        assert(from <= i < to);
        assert(s.subrange(from, to)[i - from] == s[i]);
    }
}

/// Parts with a separator between each two of them.
pub open spec fn joined<T>(parts: Seq<Seq<T>>, separator: T) -> Seq<T>
    decreases parts.len(),
{
    if parts.len() == 0 {
        Seq::empty()
    } else if parts.len() == 1 {
        parts[0]
    } else {
        joined(parts.drop_last(), separator) + seq![separator] + parts.last()
    }
}

proof fn lemma_joined_longer<T>(parts: Seq<Seq<T>>, separator: T, item: T)
    requires
        parts.len() > 0,
    ensures
        joined(parts.push(Seq::empty()), separator) == joined(parts, separator).push(separator),
        joined(parts.drop_last().push(parts.last().push(item)), separator) == joined(
            parts,
            separator,
        ).push(item),
{
    let longer = parts.push(Seq::empty());
    assert(longer.drop_last() =~= parts);
    assert(joined(longer, separator) =~= joined(parts, separator).push(separator));
    let grown = parts.drop_last().push(parts.last().push(item));
    assert(grown.drop_last() =~= parts.drop_last());
    if parts.len() == 1 {
        assert(parts.drop_last() =~= Seq::empty());
        assert(joined(grown, separator) =~= joined(parts, separator).push(item));
    } else {
        assert(joined(grown, separator) =~= joined(parts, separator).push(item));
    }
}

/// Splitting loses nothing: no part holds the separator, and the parts with
/// separators between them are the text again.
pub proof fn law_split_parts_join_again(s: Seq<char>, separator: char)
    ensures
        ({
            let parts = crate::text::split_on(s, separator);
            &&& parts.len() > 0
            &&& joined(parts, separator) == s
            &&& forall|i: int|
                0 <= i < parts.len() ==> !(#[trigger] parts[i]).contains(separator)
        }),
    decreases s.len(),
{
    let parts = crate::text::split_on(s, separator);
    if s.len() == 0 {
        assert(joined(parts, separator) =~= s);
    } else {
        let front = s.drop_last();
        law_split_parts_join_again(front, separator);
        let before = crate::text::split_on(front, separator);
        lemma_joined_longer(before, separator, s.last());
        assert(front.push(s.last()) =~= s);
        if s.last() != separator {
            assert forall|i: int| 0 <= i < parts.len() implies !(#[trigger] parts[i]).contains(
                separator,
            ) by {
                if i < before.len() - 1 {
                    assert(parts[i] == before[i]);
                } else {
                    let last = before[before.len() - 1];
                    assert(parts[i] == last.push(s.last()));
                    assert(!last.contains(separator));
                    if parts[i].contains(separator) {
                        let k = choose|k: int|
                            0 <= k < parts[i].len() && parts[i][k] == separator;
                        if k < last.len() {
                            assert(last[k] == separator);
                        }
                    }
                }
            }
        } else {
            assert forall|i: int| 0 <= i < parts.len() implies !(#[trigger] parts[i]).contains(
                separator,
            ) by {
                if i < before.len() {
                    assert(parts[i] == before[i]);
                }
            }
        }
    }
}

/// The names of a list are its parts, trimmed and in order, without those
/// that hold nothing.
pub proof fn law_names_are_the_visible_parts(parts: Seq<Seq<char>>)
    ensures
        crate::text::visible_parts(parts) == parts.map_values(
            |part: Seq<char>| crate::text::trimmed(part),
        ).filter(|name: Seq<char>| name.len() > 0),
    decreases parts.len(),
{
    let trim = |part: Seq<char>| crate::text::trimmed(part);
    let shows = |name: Seq<char>| name.len() > 0;
    reveal(Seq::filter);
    let names = parts.map_values(trim);
    if parts.len() > 0 {
        let front = parts.drop_last();
        law_names_are_the_visible_parts(front);
        assert(names.drop_last() =~= front.map_values(trim));
        assert(names.last() == crate::text::trimmed(parts.last()));
    }
    assert(crate::text::visible_parts(parts) =~= names.filter(shows));
}

/// A list of names separated by `+` is read from all of its text: the parts
/// between the separators, trimmed, without empty ones.
pub proof fn law_lists_are_read_between_their_separators(s: Seq<char>, parts: Seq<Seq<char>>)
    requires
        parts == crate::text::split_on(s, '+'),
    ensures
        joined(parts, '+') == s,
        crate::text::plus_names(s) == parts.map_values(
            |part: Seq<char>| crate::text::trimmed(part),
        ).filter(|name: Seq<char>| name.len() > 0),
{
    law_split_parts_join_again(s, '+');
    law_names_are_the_visible_parts(parts);
}

// ---------------------------------------------------------------------------
// Paths
// ---------------------------------------------------------------------------

/// A name below a directory stands behind exactly one slash, an absolute name
/// stands alone, and below nothing a name is itself.
pub proof fn law_names_go_below_directories<T>(directory: Seq<T>, name: Seq<T>, slash: T)
    ensures
        name.len() > 0 && name[0] == slash ==> crate::paths::below(directory, name, slash) == name,
        directory.len() == 0 ==> crate::paths::below(directory, name, slash) == name,
        directory.len() > 0 && !(name.len() > 0 && name[0] == slash) ==> {
            let path = crate::paths::below(directory, name, slash);
            let base = if directory.last() == slash {
                directory.drop_last()
            } else {
                directory
            };
            path == base + seq![slash] + name
        },
{
    let path = crate::paths::below(directory, name, slash);
    if directory.len() == 0 {
        assert(path =~= name);
    } else if !(name.len() > 0 && name[0] == slash) && directory.last() == slash {
        assert(path =~= directory.drop_last() + seq![slash] + name);
    }
}

/// A search path is split at its colons, and nothing of it is lost; each
/// directory is tried with the name below it.
pub proof fn law_search_paths_are_split_at_colons(path: Seq<u8>, name: Seq<u8>)
    ensures
        ({
            let parts = crate::process::directories(path);
            let tried = crate::process::candidates(path, name);
            &&& parts.len() > 0
            &&& joined(parts, 58u8) == path
            &&& forall|i: int| 0 <= i < parts.len() ==> !(#[trigger] parts[i]).contains(58u8)
            &&& tried.len() == parts.len()
            &&& forall|i: int|
                0 <= i < tried.len() ==> #[trigger] tried[i] == crate::paths::below(
                    parts[i],
                    name,
                    47u8,
                )
        }),
    decreases path.len(),
{
    let parts = crate::process::directories(path);
    if path.len() == 0 {
        assert(joined(parts, 58u8) =~= path);
    } else {
        let front = path.drop_last();
        law_search_paths_are_split_at_colons(front, name);
        let before = crate::process::directories(front);
        lemma_joined_longer(before, 58u8, path.last());
        assert(front.push(path.last()) =~= path);
        assert forall|i: int| 0 <= i < parts.len() implies !(#[trigger] parts[i]).contains(
            58u8,
        ) by {
            if path.last() == 58 {
                if i < before.len() {
                    assert(parts[i] == before[i]);
                }
            } else if i < before.len() - 1 {
                assert(parts[i] == before[i]);
            } else {
                let last = before[before.len() - 1];
                assert(parts[i] == last.push(path.last()));
                assert(!last.contains(58u8));
                if parts[i].contains(58u8) {
                    let k = choose|k: int| 0 <= k < parts[i].len() && parts[i][k] == 58u8;
                    if k < last.len() {
                        assert(last[k] == 58u8);
                    }
                }
            }
        }
    }
}

/// The socket of a display is known by its number: `X` and the number.
pub proof fn law_display_sockets_tell_their_number(number: u32)
    ensures
        crate::process::display_of(
            vstd::utf8::encode_utf8("X"@ + crate::text::decimal(number as nat)),
        ) == Some(number),
{
    let text = "X"@ + crate::text::decimal(number as nat);
    vstd::utf8::encode_utf8_decode_utf8(text);
    vstd::utf8::encode_utf8_valid_utf8(text);
    law_decimals_read_back(number as nat);
    assert(text.take("X"@.len() as int) =~= "X"@);
    assert(text.skip("X"@.len() as int) =~= crate::text::decimal(number as nat));
}

/// A display has a socket exactly where a file of the socket directory tells
/// its number.
pub proof fn law_displays_have_the_sockets_of_their_number(
    names: Seq<Seq<u8>>,
    display: u32,
    i: int,
)
    ensures
        0 <= i < names.len() && names[i] == vstd::utf8::encode_utf8(
            "X"@ + crate::text::decimal(display as nat),
        ) ==> crate::process::has_socket(names, display),
        crate::process::has_socket(names, display) ==> exists|k: int|
            {
                &&& 0 <= k < names.len()
                &&& vstd::utf8::valid_utf8(#[trigger] names[k])
                &&& vstd::utf8::decode_utf8(names[k]).len() > 0
                &&& vstd::utf8::decode_utf8(names[k])[0] == 'X'
                &&& crate::text::parsed(vstd::utf8::decode_utf8(names[k]).skip(1)) == Some(display)
            },
{
    law_display_sockets_tell_their_number(display);
    reveal_strlit("X");
    if 0 <= i < names.len() && names[i] == vstd::utf8::encode_utf8(
        "X"@ + crate::text::decimal(display as nat),
    ) {
        assert(crate::process::display_of(names[i]) == Some(display));
    }
    if crate::process::has_socket(names, display) {
        let k = choose|k: int|
            0 <= k < names.len() && #[trigger] crate::process::display_of(names[k]) == Some(
                display,
            );
        let text = vstd::utf8::decode_utf8(names[k]);
        assert("X"@.len() == 1);
        assert(text.take(1)[0] == "X"@[0]);
        assert(vstd::utf8::valid_utf8(names[k]));
    }
}

/// A display is taken where it has a socket or a lock.
pub proof fn law_taken_displays_have_a_socket_or_a_lock<L: Fn(u32) -> bool>(
    names: Seq<Seq<u8>>,
    is_locked: L,
    display: u32,
)
    ensures
        crate::process::is_taken(names, is_locked, display) <==> crate::process::has_socket(
            names,
            display,
        ) || call_ensures(is_locked, (display,), true),
{
}

/// A text has a prefix exactly where it is the prefix and something more.
pub proof fn law_prefixes_come_first(s: Seq<char>, prefix: Seq<char>, rest: Seq<char>)
    ensures
        crate::text::has_prefix(prefix + rest, prefix),
        (prefix + rest).skip(prefix.len() as int) == rest,
        crate::text::has_prefix(s, prefix) ==> s == prefix + s.skip(prefix.len() as int),
{
    assert((prefix + rest).take(prefix.len() as int) =~= prefix);
    assert((prefix + rest).skip(prefix.len() as int) =~= rest);
    if crate::text::has_prefix(s, prefix) {
        assert(s =~= s.take(prefix.len() as int) + s.skip(prefix.len() as int));
    }
}

/// Event times count milliseconds, as many as fit in 32 bits; an unknown time
/// is zero.
pub proof fn law_event_times_count_milliseconds(span: std::time::Duration)
    ensures
        crate::clock::stamp_of(None) == 0,
        crate::clock::stamp_of(Some(span)) < 0x1_0000_0000,
        crate::clock::duration_nanos(span) < 0x1_0000_0000 * 1_000_000 ==> crate::clock::stamp_of(
            Some(span),
        ) == crate::clock::duration_nanos(span) / 1_000_000,
        (crate::clock::duration_nanos(span) / 1_000_000 - crate::clock::stamp_of(Some(span)))
            % 0x1_0000_0000 == 0,
{
}

} // verus!
