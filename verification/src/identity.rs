//! Random identifiers and the names made of them.
use crate::text::{decimal_text, join2, join4};
use vstd::prelude::*;

verus! {

/// The hexadecimal digits of an identifier.
pub open spec fn id_digits(id: u128) -> Seq<char> {
    Seq::new(
        32,
        |i: int| crate::text::digit_char(((id >> ((4 * (31 - i)) as u128)) & 0xf) as int),
    )
}

/// The hexadecimal digits of an identifier in groups.
pub open spec fn id_groups(id: u128) -> Seq<char> {
    let digits = id_digits(id);
    digits.subrange(0, 8) + "-"@ + digits.subrange(8, 12) + "-"@ + digits.subrange(12, 16) + "-"@
        + digits.subrange(16, 20) + "-"@ + digits.subrange(20, 32)
}

/// Whether a number is a random identifier of the fourth version.
pub open spec fn is_random_id(id: u128) -> bool {
    (id >> 76) & 0xf == 4 && (id >> 62) & 3 == 2
}

/// `Uuid::new_v4`, as a number: random but for the bits that mark the version
/// and the variant.
#[verifier::external_body]
fn random_id() -> (id: u128)
    ensures
        is_random_id(id),
{
    uuid::Uuid::new_v4().as_u128()
}

/// Whether drawing an identifier at random comes to this one.
pub closed spec fn is_drawn(id: u128) -> bool {
    call_ensures(random_id, (), id)
}

/// Every identifier that is drawn is marked as random.
pub proof fn lemma_drawn_ids_are_random(id: u128)
    requires
        is_drawn(id),
    ensures
        is_random_id(id),
{
}

fn draw<D: Fn() -> u128>(source: D) -> (id: u128)
    requires
        call_requires(source, ()),
    ensures
        call_ensures(source, (), id),
{
    source()
}

fn drawn() -> (id: u128)
    ensures
        is_drawn(id),
{
    draw(random_id)
}

/// `Uuid::simple`, shown: the thirty-two digits in small letters.
#[verifier::external_body]
fn simple_text(id: u128) -> (text: String)
    ensures
        text@ == id_digits(id),
{
    uuid::Uuid::from_u128(id).simple().to_string()
}

/// A `Uuid`, shown: the digits in small letters, in five groups.
#[verifier::external_body]
fn grouped_text(id: u128) -> (text: String)
    ensures
        text@ == id_groups(id),
{
    uuid::Uuid::from_u128(id).to_string()
}

/// The name of a seat socket: it tells its owner.
pub open spec fn seat_name(pid: u32, id: u128) -> Seq<char> {
    "agent-seat-"@ + crate::text::decimal(pid as nat) + "-"@ + id_digits(id)
}

/// The name of a bridge's directory.
pub open spec fn bridge_name(pid: u32, id: u128) -> Seq<char> {
    "agent-seat-xwayland-"@ + crate::text::decimal(pid as nat) + "-"@ + id_groups(id)
}

/// The name of a seat socket.
pub fn seat_socket_name(pid: u32, id: u128) -> (name: String)
    ensures
        name@ == seat_name(pid, id),
{
    let number: String = decimal_text(pid as u64);
    let digits: String = simple_text(id);
    join4("agent-seat-", number.as_str(), "-", digits.as_str())
}

/// The name of a bridge's directory.
pub fn bridge_directory_name(pid: u32, id: u128) -> (name: String)
    ensures
        name@ == bridge_name(pid, id),
{
    let number: String = decimal_text(pid as u64);
    let digits: String = grouped_text(id);
    join4("agent-seat-xwayland-", number.as_str(), "-", digits.as_str())
}

/// The secret that two identifiers make up.
pub fn cookie_of(first: u128, second: u128) -> (cookie: String)
    ensures
        cookie@ == id_digits(first) + id_digits(second),
{
    let head: String = simple_text(first);
    let tail: String = simple_text(second);
    join2(head.as_str(), tail.as_str())
}

/// A fresh name for a seat socket of this process.
pub fn fresh_socket_name(pid: u32) -> (name: String)
    ensures
        exists|id: u128| #[trigger] is_drawn(id) && name@ == seat_name(pid, id),
{
    let id: u128 = drawn();
    seat_socket_name(pid, id)
}

/// A fresh name for a bridge's directory.
pub fn fresh_bridge_name(pid: u32) -> (name: String)
    ensures
        exists|id: u128| #[trigger] is_drawn(id) && name@ == bridge_name(pid, id),
{
    let id: u128 = drawn();
    bridge_directory_name(pid, id)
}

/// A fresh secret.
pub fn fresh_cookie() -> (cookie: String)
    ensures
        exists|first: u128, second: u128|
            #![trigger is_drawn(first), is_drawn(second)]
            is_drawn(first) && is_drawn(second) && cookie@ == id_digits(first) + id_digits(second),
{
    let first: u128 = drawn();
    let second: u128 = drawn();
    cookie_of(first, second)
}

proof fn lemma_digit_chars_differ(a: int, b: int)
    requires
        0 <= a < 16,
        0 <= b < 16,
        crate::text::digit_char(a) == crate::text::digit_char(b),
    ensures
        a == b,
{
}

proof fn lemma_shifts_compose(a: u128, shift: u128, more: u128)
    requires
        shift < 124,
        more == shift + 4,
    ensures
        a >> more == (a >> shift) >> 4,
{
    let first = vstd::arithmetic::power2::pow2(shift as nat);
    let second = vstd::arithmetic::power2::pow2(4);
    vstd::bits::lemma_u128_shr_is_div(a, shift);
    vstd::bits::lemma_u128_shr_is_div(a, more);
    vstd::bits::lemma_u128_shr_is_div(a >> shift, 4);
    vstd::arithmetic::power2::lemma_pow2_adds(shift as nat, 4);
    vstd::arithmetic::power2::lemma_pow2_pos(shift as nat);
    vstd::arithmetic::power2::lemma_pow2_pos(4);
    vstd::arithmetic::div_mod::lemma_div_denominator(a as int, first as int, second as int);
}

proof fn lemma_leading_digits(a: u128, b: u128, at: int)
    requires
        id_digits(a) == id_digits(b),
        0 <= at < 32,
    ensures
        a >> ((4 * (31 - at)) as u128) == b >> ((4 * (31 - at)) as u128),
    decreases at,
{
    let shift = (4 * (31 - at)) as u128;
    let x = a >> shift;
    let y = b >> shift;
    assert((x & 0xf) < 16 && (y & 0xf) < 16) by (bit_vector);
    assert(id_digits(a)[at] == crate::text::digit_char((x & 0xf) as int));
    assert(id_digits(b)[at] == crate::text::digit_char((y & 0xf) as int));
    lemma_digit_chars_differ((x & 0xf) as int, (y & 0xf) as int);
    if at == 0 {
        assert(a >> 124 < 16 && b >> 124 < 16) by (bit_vector);
        assert(x == x & 0xf && y == y & 0xf) by (bit_vector)
            requires
                x < 16,
                y < 16,
        ;
    } else {
        lemma_leading_digits(a, b, at - 1);
        let more = (4 * (31 - (at - 1))) as u128;
        lemma_shifts_compose(a, shift, more);
        lemma_shifts_compose(b, shift, more);
        assert(x == y) by (bit_vector)
            requires
                x >> 4 == y >> 4,
                x & 0xf == y & 0xf,
        ;
    }
}

/// Sockets of different identifiers have different names, whichever process
/// opened them.
pub proof fn law_socket_names_differ(pid: u32, id: u128, other_pid: u32, other: u128)
    requires
        id != other,
    ensures
        seat_name(pid, id) != seat_name(other_pid, other),
{
    let name = seat_name(pid, id);
    let second = seat_name(other_pid, other);
    assert(name.skip(name.len() - 32) =~= id_digits(id));
    assert(second.skip(second.len() - 32) =~= id_digits(other));
    if name == second {
        lemma_leading_digits(id, other, 31);
        assert(id >> 0 == id && other >> 0 == other) by (bit_vector);
    }
}

/// Every secret has sixty-four digits.
pub proof fn law_secrets_are_long(first: u128, second: u128)
    ensures
        (id_digits(first) + id_digits(second)).len() == 64,
{
}

proof fn lemma_digit_at(id: u128, at: int)
    requires
        0 <= at < 32,
    ensures
        id_digits(id)[at] == crate::text::digit_char(
            (id as int / vstd::arithmetic::power2::pow2((4 * (31 - at)) as nat) as int) % 16,
        ),
{
    let shift = (4 * (31 - at)) as u128;
    vstd::bits::lemma_u128_shr_is_div(id, shift);
    let shifted = id >> shift;
    assert(shifted & 0xf == shifted % 16) by (bit_vector);
}

proof fn lemma_leading_value(id: u128, count: int)
    requires
        0 <= count <= 32,
    ensures
        crate::text_laws::hex_value(id_digits(id).take(count)) == id as int
            / vstd::arithmetic::power2::pow2((4 * (32 - count)) as nat) as int,
    decreases count,
{
    let digits = id_digits(id).take(count);
    if count == 0 {
        vstd::arithmetic::power2::lemma2_to64();
        vstd::arithmetic::power2::lemma_pow2_adds(64, 64);
        assert(vstd::arithmetic::power2::pow2(128) == 0x1_0000_0000_0000_0000
            * 0x1_0000_0000_0000_0000);
        vstd::arithmetic::div_mod::lemma_basic_div(
            id as int,
            vstd::arithmetic::power2::pow2(128) as int,
        );
    } else {
        lemma_leading_value(id, count - 1);
        lemma_digit_at(id, count - 1);
        assert(digits.drop_last() =~= id_digits(id).take(count - 1));
        assert(digits.last() == id_digits(id)[count - 1]);
        let low = (4 * (32 - count)) as nat;
        let unit = vstd::arithmetic::power2::pow2(low) as int;
        vstd::arithmetic::power2::lemma_pow2_pos(low);
        vstd::arithmetic::power2::lemma2_to64();
        vstd::arithmetic::power2::lemma_pow2_adds(low, 4);
        assert(vstd::arithmetic::power2::pow2(4) == 16);
        let value = id as int / unit;
        vstd::arithmetic::div_mod::lemma_div_denominator(id as int, unit, 16);
        assert(id as int / (unit * 16) == value / 16);
        assert(0 <= value % 16 < 16);
        assert(crate::text_laws::hex_digit(crate::text::digit_char(value % 16)) == value % 16);
        assert(value == (value / 16) * 16 + value % 16);
    }
}

/// The digits of an identifier are thirty-two, and denote it in hexadecimal.
pub proof fn law_digits_denote_the_identifier(id: u128)
    ensures
        id_digits(id).len() == 32,
        crate::text_laws::hex_value(id_digits(id)) == id,
{
    lemma_leading_value(id, 32);
    assert(id_digits(id).take(32) =~= id_digits(id));
    vstd::arithmetic::power2::lemma2_to64();
    assert((4 * (32 - 32int)) as nat == 0);
    assert(vstd::arithmetic::power2::pow2(0) == 1);
    assert(id as int / 1 == id as int);
}

/// The grouped form of an identifier is its digits with a dash behind the
/// eighth, the twelfth, the sixteenth and the twentieth.
pub proof fn law_groups_are_the_digits(id: u128)
    ensures
        ({
            let groups = id_groups(id);
            let digits = id_digits(id);
            &&& groups.len() == 36
            &&& groups[8] == '-' && groups[13] == '-' && groups[18] == '-' && groups[23] == '-'
            &&& forall|i: int| 0 <= i < 8 ==> #[trigger] groups[i] == digits[i]
            &&& forall|i: int| 9 <= i < 13 ==> #[trigger] groups[i] == digits[i - 1]
            &&& forall|i: int| 14 <= i < 18 ==> #[trigger] groups[i] == digits[i - 2]
            &&& forall|i: int| 19 <= i < 23 ==> #[trigger] groups[i] == digits[i - 3]
            &&& forall|i: int| 24 <= i < 36 ==> #[trigger] groups[i] == digits[i - 4]
        }),
{
    reveal_strlit("-");
}

/// A seat socket and a bridge directory are named by their owner and their
/// identifier.
pub proof fn law_names_tell_process_and_identifier(pid: u32, id: u128)
    ensures
        ({
            let number = crate::text::decimal(pid as nat);
            let socket = seat_name(pid, id);
            let directory = bridge_name(pid, id);
            &&& socket == "agent-seat-"@ + number + seq!['-'] + id_digits(id)
            &&& directory == "agent-seat-xwayland-"@ + number + seq!['-'] + id_groups(id)
        }),
{
    reveal_strlit("-");
    assert("-"@ =~= seq!['-']);
}

} // verus!
