//! Text helpers: trimming, splitting, decimal and hexadecimal numbers.
//!
//! Strings are modelled by their characters (`Seq<char>`), so every contract
//! here is stated over character sequences.
use vstd::prelude::*;

verus! {

/// `String::push` appends one character.
pub assume_specification[ String::push ](s: &mut String, c: char)
    ensures
        final(s)@ == old(s)@.push(c),
;

/// The characters of each string of a list.
pub open spec fn texts(list: Seq<String>) -> Seq<Seq<char>> {
    Seq::new(list.len(), |i: int| list[i]@)
}

/// `std::str::from_utf8`: the text that bytes encode, where they are valid
/// UTF-8.
#[verifier::external_body]
fn from_utf8(bytes: &[u8]) -> (text: Option<&str>)
    ensures
        match text {
            Some(text) => vstd::utf8::valid_utf8(bytes@) && text@ == vstd::utf8::decode_utf8(bytes@),
            None => !vstd::utf8::valid_utf8(bytes@),
        },
{
    std::str::from_utf8(bytes).ok()
}

/// The text that bytes encode, where they are valid UTF-8.
pub fn decoded(bytes: &Vec<u8>) -> (text: Option<String>)
    ensures
        match text {
            Some(text) => vstd::utf8::valid_utf8(bytes@) && text@ == vstd::utf8::decode_utf8(bytes@),
            None => !vstd::utf8::valid_utf8(bytes@),
        },
{
    match from_utf8(bytes.as_slice()) {
        Some(text) => Some(text.to_owned()),
        None => None,
    }
}

/// What `String::from_utf8_lossy` makes of bytes.
pub uninterp spec fn lossy(bytes: Seq<u8>) -> Seq<char>;

/// `String::from_utf8_lossy`, as an owned string: the text that bytes encode,
/// with replacement characters where they are not valid UTF-8. It depends on
/// the bytes alone; valid bytes give the text that they encode.
#[verifier::external_body]
pub(crate) fn from_utf8_lossy(bytes: &[u8]) -> (text: String)
    ensures
        text@ == lossy(bytes@),
        vstd::utf8::valid_utf8(bytes@) ==> text@ == vstd::utf8::decode_utf8(bytes@),
{
    String::from_utf8_lossy(bytes).into_owned()
}

/// Whether two strings hold the same characters.
pub fn same_text(a: &str, b: &str) -> (same: bool)
    ensures
        same == (a@ == b@),
{
    a.to_owned() == b.to_owned()
}

/// The characters of a string as a vector.
pub fn chars_of(s: &str) -> (chars: Vec<char>)
    ensures
        chars@ == s@,
{
    let mut chars: Vec<char> = Vec::new();
    for c in it: s.chars()
        invariant
            chars@ == it.seq().take(it.index()),
            it.seq() == s@,
    {
        chars.push(c);
    }
    chars
}

/// The concatenation of two strings.
pub fn join2(a: &str, b: &str) -> (joined: String)
    ensures
        joined@ == a@ + b@,
{
    let mut joined: String = a.to_owned();
    joined.append(b);
    joined
}

/// The concatenation of three strings.
pub fn join3(a: &str, b: &str, c: &str) -> (joined: String)
    ensures
        joined@ == a@ + b@ + c@,
{
    let mut joined: String = join2(a, b);
    joined.append(c);
    joined
}

/// The concatenation of four strings.
pub fn join4(a: &str, b: &str, c: &str, d: &str) -> (joined: String)
    ensures
        joined@ == a@ + b@ + c@ + d@,
{
    let mut joined: String = join3(a, b, c);
    joined.append(d);
    joined
}

// ---------------------------------------------------------------------------
// White space
// ---------------------------------------------------------------------------

/// The code points with the Unicode `White_Space` property.
pub open spec fn white_space(c: char) -> bool {
    ||| 0x09 <= c as u32 <= 0x0d
    ||| c as u32 == 0x20
    ||| c as u32 == 0x85
    ||| c as u32 == 0xa0
    ||| c as u32 == 0x1680
    ||| 0x2000 <= c as u32 <= 0x200a
    ||| 0x2028 <= c as u32 <= 0x2029
    ||| c as u32 == 0x202f
    ||| c as u32 == 0x205f
    ||| c as u32 == 0x3000
}

/// Whether a character is white space.
pub fn is_white_space(c: char) -> (yes: bool)
    ensures
        yes == white_space(c),
{
    let code: u32 = c as u32;
    (0x09 <= code && code <= 0x0d) || code == 0x20 || code == 0x85 || code == 0xa0 || code == 0x1680
        || (0x2000 <= code && code <= 0x200a) || (0x2028 <= code && code <= 0x2029) || code
        == 0x202f || code == 0x205f || code == 0x3000
}

/// A text without its leading white space.
pub open spec fn trim_start(s: Seq<char>) -> Seq<char>
    decreases s.len(),
{
    if s.len() > 0 && white_space(s[0]) {
        trim_start(s.subrange(1, s.len() as int))
    } else {
        s
    }
}

/// A text without its trailing white space.
pub open spec fn trim_end(s: Seq<char>) -> Seq<char>
    decreases s.len(),
{
    if s.len() > 0 && white_space(s.last()) {
        trim_end(s.drop_last())
    } else {
        s
    }
}

/// A text without its leading and trailing white space.
pub open spec fn trimmed(s: Seq<char>) -> Seq<char> {
    trim_end(trim_start(s))
}

/// Remove leading and trailing white space.
pub fn trim(s: &str) -> (rest: &str)
    ensures
        rest@ == trimmed(s@),
{
    let chars: Vec<char> = chars_of(s);
    let mut from: usize = 0;
    proof {
        assert(s@.subrange(0, s@.len() as int) =~= s@);
    }
    while from < chars.len() && is_white_space(chars[from])
        invariant
            from <= chars.len(),
            chars@ == s@,
            trim_start(s@) == trim_start(s@.subrange(from as int, s@.len() as int)),
        decreases chars.len() - from,
    {
        proof {
            let rest = s@.subrange(from as int, s@.len() as int);
            assert(rest.subrange(1, rest.len() as int) =~= s@.subrange(
                from + 1,
                s@.len() as int,
            ));
        }
        from = from + 1;
    }
    let ghost start = trim_start(s@);
    assert(start == s@.subrange(from as int, s@.len() as int));
    let mut to: usize = chars.len();
    while to > from && is_white_space(chars[to - 1])
        invariant
            from <= to <= chars.len(),
            chars@ == s@,
            start == trim_start(s@),
            trim_end(start) == trim_end(s@.subrange(from as int, to as int)),
        decreases to - from,
    {
        proof {
            let part = s@.subrange(from as int, to as int);
            assert(part.drop_last() =~= s@.subrange(from as int, to - 1));
            assert(part.last() == s@[to - 1]);
        }
        to = to - 1;
    }
    proof {
        let part = s@.subrange(from as int, to as int);
        if to > from {
            assert(part.last() == s@[to - 1]);
        }
    }
    s.substring_char(from, to)
}

// ---------------------------------------------------------------------------
// Splitting
// ---------------------------------------------------------------------------

/// The parts of a text between its separators: a separator opens a new part,
/// every other character extends the last one.
pub open spec fn split_on(s: Seq<char>, separator: char) -> Seq<Seq<char>>
    decreases s.len(),
{
    if s.len() == 0 {
        seq![Seq::<char>::empty()]
    } else {
        let before = split_on(s.drop_last(), separator);
        if s.last() == separator {
            before.push(Seq::<char>::empty())
        } else {
            before.drop_last().push(before.last().push(s.last()))
        }
    }
}

/// The non-empty texts that remain after trimming each part.
pub open spec fn visible_parts(parts: Seq<Seq<char>>) -> Seq<Seq<char>>
    decreases parts.len(),
{
    if parts.len() == 0 {
        Seq::empty()
    } else {
        let before = visible_parts(parts.drop_last());
        let part = trimmed(parts.last());
        if part.len() == 0 {
            before
        } else {
            before.push(part)
        }
    }
}

/// The names of a `+`-separated list, trimmed, without empty ones.
pub open spec fn plus_names(s: Seq<char>) -> Seq<Seq<char>> {
    visible_parts(split_on(s, '+'))
}

/// Split a text at every separator.
pub fn split(s: &str, separator: char) -> (parts: Vec<String>)
    ensures
        texts(parts@) == split_on(s@, separator),
        parts@.len() > 0,
{
    let mut done: Vec<String> = Vec::new();
    let mut current: String = String::new();
    assert(s@.take(0) =~= Seq::<char>::empty());
    assert(texts(done@).push(current@) =~= seq![Seq::<char>::empty()]);
    for c in it: s.chars()
        invariant
            it.seq() == s@,
            texts(done@).push(current@) == split_on(s@.take(it.index()), separator),
    {
        let ghost i = it.index();
        proof {
            assert(s@.take(i + 1).drop_last() =~= s@.take(i));
            assert(s@.take(i + 1).last() == c);
            assert(texts(done@).push(current@).drop_last() =~= texts(done@));
        }
        if c == separator {
            let ghost before = done@;
            let ghost part = current;
            done.push(current);
            current = String::new();
            assert(texts(done@) =~= texts(before).push(part@));
        } else {
            current.push(c);
        }
    }
    assert(s@.take(s@.len() as int) =~= s@);
    let ghost before = done@;
    let ghost part = current;
    done.push(current);
    assert(texts(done@) =~= texts(before).push(part@));
    done
}

/// The names of a `+`-separated list: trimmed, empty names left out.
pub fn split_plus(s: &str) -> (names: Vec<String>)
    ensures
        texts(names@) == plus_names(s@),
{
    let parts: Vec<String> = split(s, '+');
    let mut names: Vec<String> = Vec::new();
    let ghost all = texts(parts@);
    let mut i: usize = 0;
    assert(texts(names@) =~= visible_parts(all.take(0)));
    while i < parts.len()
        invariant
            i <= parts.len(),
            all == texts(parts@),
            texts(names@) == visible_parts(all.take(i as int)),
        decreases parts.len() - i,
    {
        let part: &str = trim(parts[i].as_str());
        proof {
            assert(all.take(i + 1).drop_last() =~= all.take(i as int));
            assert(all.take(i + 1).last() == parts@[i as int]@);
        }
        if !part.is_empty() {
            let ghost before = names@;
            let name: String = part.to_owned();
            names.push(name);
            assert(texts(names@) =~= texts(before).push(part@));
        }
        i = i + 1;
    }
    assert(all.take(all.len() as int) =~= all);
    names
}

// ---------------------------------------------------------------------------
// Numbers
// ---------------------------------------------------------------------------

/// The character of a decimal or hexadecimal digit.
pub open spec fn digit_char(d: int) -> char {
    if d < 10 {
        (d + 48) as char
    } else {
        (d + 87) as char
    }
}

/// A number in decimal, without leading zeros.
pub open spec fn decimal(n: nat) -> Seq<char>
    decreases n,
{
    if n < 10 {
        seq![digit_char(n as int)]
    } else {
        decimal(n / 10).push(digit_char((n % 10) as int))
    }
}

/// A number in lower-case hexadecimal, without leading zeros.
pub open spec fn hexadecimal(n: nat) -> Seq<char>
    decreases n,
{
    if n < 16 {
        seq![digit_char(n as int)]
    } else {
        hexadecimal(n / 16).push(digit_char((n % 16) as int))
    }
}

/// A signed number in decimal.
pub open spec fn signed_decimal(n: int) -> Seq<char> {
    if n < 0 {
        "-"@ + decimal((-n) as nat)
    } else {
        decimal(n as nat)
    }
}

/// A number behind the `0x` prefix.
pub open spec fn prefixed_hexadecimal(n: nat) -> Seq<char> {
    "0x"@ + hexadecimal(n)
}

fn digit(d: u8) -> (c: char)
    requires
        d < 16,
    ensures
        c == digit_char(d as int),
{
    if d < 10 {
        (d + 48u8) as char
    } else {
        (d + 87u8) as char
    }
}

/// Write a number in decimal.
pub fn decimal_text(n: u64) -> (text: String)
    ensures
        text@ == decimal(n as nat),
    decreases n,
{
    if n < 10 {
        let mut text: String = String::new();
        text.push(digit(n as u8));
        assert(text@ =~= seq![digit_char(n as int)]);
        text
    } else {
        let mut text: String = decimal_text(n / 10);
        text.push(digit((n % 10) as u8));
        text
    }
}

/// Write a signed number in decimal.
pub fn signed_text(n: i64) -> (text: String)
    ensures
        text@ == signed_decimal(n as int),
{
    if n < 0 {
        let magnitude: u64 = (-(n as i128)) as u64;
        let digits: String = decimal_text(magnitude);
        join2("-", digits.as_str())
    } else {
        decimal_text(n as u64)
    }
}

fn hexadecimal_text(n: u32) -> (text: String)
    ensures
        text@ == hexadecimal(n as nat),
    decreases n,
{
    if n < 16 {
        let mut text: String = String::new();
        text.push(digit(n as u8));
        assert(text@ =~= seq![digit_char(n as int)]);
        text
    } else {
        let mut text: String = hexadecimal_text(n / 16);
        text.push(digit((n % 16) as u8));
        text
    }
}

/// Write a number in hexadecimal behind the `0x` prefix.
pub fn prefixed_hex_text(n: u32) -> (text: String)
    ensures
        text@ == prefixed_hexadecimal(n as nat),
{
    let digits: String = hexadecimal_text(n);
    join2("0x", digits.as_str())
}

/// Whether a character is a decimal digit.
pub open spec fn is_digit(c: char) -> bool {
    '0' <= c <= '9'
}

/// The number that a run of decimal digits denotes.
pub open spec fn digits_value(s: Seq<char>) -> nat
    decreases s.len(),
{
    if s.len() == 0 {
        0
    } else {
        digits_value(s.drop_last()) * 10 + (s.last() as u32 - 48) as nat
    }
}

/// Whether a text is a non-empty run of decimal digits.
pub open spec fn all_digits(s: Seq<char>) -> bool {
    s.len() > 0 && forall|i: int| 0 <= i < s.len() ==> is_digit(#[trigger] s[i])
}

/// The number that a text denotes: an optional `+`, then decimal digits,
/// small enough for 32 bits.
pub open spec fn parsed(s: Seq<char>) -> Option<u32> {
    let digits = if s.len() > 0 && s[0] == '+' {
        s.subrange(1, s.len() as int)
    } else {
        s
    };
    if all_digits(digits) && digits_value(digits) <= u32::MAX {
        Some(digits_value(digits) as u32)
    } else {
        None
    }
}

proof fn lemma_value_grows(s: Seq<char>, i: int)
    requires
        0 <= i <= s.len(),
        forall|j: int| 0 <= j < s.len() ==> is_digit(#[trigger] s[j]),
    ensures
        digits_value(s.take(i)) <= digits_value(s),
    decreases s.len() - i,
{
    if i < s.len() {
        lemma_value_grows(s, i + 1);
        assert(s.take(i + 1).drop_last() =~= s.take(i));
        assert(is_digit(s[i]));
        assert(s.take(i + 1).last() == s[i]);
    } else {
        assert(s.take(i) =~= s);
    }
}

/// Read a number written in decimal digits, with an optional leading `+`.
pub fn parse_u32(s: &str) -> (number: Option<u32>)
    ensures
        number == parsed(s@),
{
    let chars: Vec<char> = chars_of(s);
    let start: usize = if chars.len() > 0 && chars[0] == '+' {
        1
    } else {
        0
    };
    let ghost digits = s@.subrange(start as int, s@.len() as int);
    proof {
        assert(start == 0 ==> digits =~= s@);
    }
    if start == chars.len() {
        return None;
    }
    let mut value: u64 = 0;
    let mut i: usize = start;
    assert(digits.take(0) =~= Seq::<char>::empty());
    while i < chars.len()
        invariant
            start <= i <= chars.len(),
            chars@ == s@,
            digits == s@.subrange(start as int, s@.len() as int),
            digits == (if s@.len() > 0 && s@[0] == '+' {
                s@.subrange(1, s@.len() as int)
            } else {
                s@
            }),
            digits.len() > 0,
            forall|j: int| 0 <= j < i - start ==> is_digit(#[trigger] digits[j]),
            value == digits_value(digits.take(i - start)),
            value <= u32::MAX,
        decreases chars.len() - i,
    {
        let c: char = chars[i];
        assert(digits[i - start] == c);
        if !('0' <= c && c <= '9') {
            assert(!is_digit(digits[i - start]));
            return None;
        }
        let ghost n = i - start;
        proof {
            assert(digits.take(n + 1).drop_last() =~= digits.take(n));
            assert(digits.take(n + 1).last() == c);
        }
        value = value * 10 + (c as u32 - 48) as u64;
        if value > u32::MAX as u64 {
            proof {
                if all_digits(digits) {
                    lemma_value_grows(digits, n + 1);
                }
            }
            return None;
        }
        i = i + 1;
    }
    assert(digits.take(digits.len() as int) =~= digits);
    Some(value as u32)
}

/// Whether a text begins with a prefix.
pub open spec fn has_prefix(s: Seq<char>, prefix: Seq<char>) -> bool {
    s.len() >= prefix.len() && s.take(prefix.len() as int) == prefix
}

/// What follows a prefix, where a text begins with it.
pub fn strip_prefix<'a>(s: &'a str, prefix: &str) -> (rest: Option<&'a str>)
    ensures
        match rest {
            Some(rest) => has_prefix(s@, prefix@) && rest@ == s@.skip(prefix@.len() as int),
            None => !has_prefix(s@, prefix@),
        },
{
    let length: usize = s.unicode_len();
    let skipped: usize = prefix.unicode_len();
    if length < skipped {
        return None;
    }
    let head: &str = s.substring_char(0, skipped);
    assert(head@ =~= s@.take(skipped as int));
    if same_text(head, prefix) {
        let rest: &str = s.substring_char(skipped, length);
        assert(rest@ =~= s@.skip(skipped as int));
        Some(rest)
    } else {
        None
    }
}

} // verus!
