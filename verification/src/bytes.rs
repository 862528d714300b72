//! Byte strings: names, paths and values of the operating system, which need
//! not be text.
use vstd::prelude::*;

verus! {

/// The bytes of each byte string of a list.
pub open spec fn byte_strings(list: Seq<Vec<u8>>) -> Seq<Seq<u8>> {
    Seq::new(list.len(), |i: int| list[i]@)
}

/// The bytes of an optional byte string.
pub open spec fn optional_bytes(value: Option<Vec<u8>>) -> Option<Seq<u8>> {
    match value {
        Some(bytes) => Some(bytes@),
        None => None,
    }
}

/// The bytes that encode a text.
pub open spec fn encoded(text: Seq<char>) -> Seq<u8> {
    vstd::utf8::encode_utf8(text)
}

/// Different texts have different encodings.
pub proof fn lemma_encoded_differ(a: Seq<char>, b: Seq<char>)
    requires
        a != b,
    ensures
        encoded(a) != encoded(b),
{
    vstd::utf8::encode_utf8_decode_utf8(a);
    vstd::utf8::encode_utf8_decode_utf8(b);
}

/// The bytes that encode a text.
pub fn bytes_of(text: &str) -> (bytes: Vec<u8>)
    ensures
        bytes@ == encoded(text@),
{
    text.as_bytes_vec()
}

/// A copy of a byte string.
pub fn copy_bytes(bytes: &Vec<u8>) -> (copy: Vec<u8>)
    ensures
        copy@ == bytes@,
{
    let copy: Vec<u8> = bytes.clone();
    assert(copy@ =~= bytes@);
    copy
}

/// A copy of an optional byte string.
pub fn copy_optional(value: &Option<Vec<u8>>) -> (copy: Option<Vec<u8>>)
    ensures
        optional_bytes(copy) == optional_bytes(*value),
{
    match value {
        Some(bytes) => Some(copy_bytes(bytes)),
        None => None,
    }
}

/// A copy of a list of byte strings.
pub fn copy_list(list: &Vec<Vec<u8>>) -> (copy: Vec<Vec<u8>>)
    ensures
        byte_strings(copy@) == byte_strings(list@),
{
    let mut copy: Vec<Vec<u8>> = Vec::new();
    let mut i: usize = 0;
    while i < list.len()
        invariant
            i <= list.len(),
            copy@.len() == i,
            forall|j: int| 0 <= j < i ==> (#[trigger] copy@[j])@ == list@[j]@,
        decreases list.len() - i,
    {
        copy.push(copy_bytes(&list[i]));
        i = i + 1;
    }
    assert(byte_strings(copy@) =~= byte_strings(list@));
    copy
}

/// Whether two byte strings are the same.
pub fn same_bytes(a: &Vec<u8>, b: &Vec<u8>) -> (same: bool)
    ensures
        same == (a@ == b@),
{
    if a.len() != b.len() {
        return false;
    }
    let mut i: usize = 0;
    while i < a.len()
        invariant
            i <= a.len(),
            a@.len() == b@.len(),
            forall|j: int| 0 <= j < i ==> a@[j] == b@[j],
        decreases a.len() - i,
    {
        if a[i] != b[i] {
            return false;
        }
        i = i + 1;
    }
    assert(a@ =~= b@);
    true
}

} // verus!
