//! Little-endian integers in byte sequences, and equality of byte slices.

use byteorder::{ByteOrder, LittleEndian};
use vstd::prelude::*;
use vstd::slice::slice_subrange;

verus! {

/// The number that the first two bytes of `bytes` spell, least significant
/// byte first.
pub open spec fn le_u16_value(bytes: Seq<u8>) -> int
    recommends
        bytes.len() >= 2,
{
    bytes[0] + 0x100 * bytes[1]
}

/// The number that the first four bytes of `bytes` spell, least significant
/// byte first.
pub open spec fn le_u32_value(bytes: Seq<u8>) -> int
    recommends
        bytes.len() >= 4,
{
    bytes[0] + 0x100 * bytes[1] + 0x1_0000 * bytes[2] + 0x100_0000 * bytes[3]
}

/// The number that the four bytes of `bytes` from index `at` on spell.
pub open spec fn le_u32_at(bytes: Seq<u8>, at: int) -> int
    recommends
        0 <= at,
        at + 4 <= bytes.len(),
{
    le_u32_value(bytes.subrange(at, at + 4))
}

/// The number that the two bytes of `bytes` from index `at` on spell.
pub open spec fn le_u16_at(bytes: Seq<u8>, at: int) -> int
    recommends
        0 <= at,
        at + 2 <= bytes.len(),
{
    le_u16_value(bytes.subrange(at, at + 2))
}

/// Reads the little-endian `u16` at index `at` of `input`.
pub fn read_le_u16(input: &[u8], at: usize) -> (value: u16)
    requires
        at + 2 <= input@.len(),
    ensures
        value == le_u16_at(input@, at as int),
{
    let low: u16 = input[at] as u16;
    let high: u16 = input[at + 1] as u16;
    low + 0x100 * high
}

/// Reads the little-endian `u32` at index `at` of `input`.
pub fn read_le_u32(input: &[u8], at: usize) -> (value: u32)
    requires
        at + 4 <= input@.len(),
    ensures
        value == le_u32_at(input@, at as int),
{
    let b0: u32 = input[at] as u32;
    let b1: u32 = input[at + 1] as u32;
    let b2: u32 = input[at + 2] as u32;
    let b3: u32 = input[at + 3] as u32;
    b0 + 0x100 * b1 + 0x1_0000 * b2 + 0x100_0000 * b3
}

/// Calls `byteorder::LittleEndian::read_u32`, which reads the first four
/// bytes of the buffer as a little-endian number and panics on a buffer of
/// fewer than four bytes.
#[verifier::external_body]
pub(crate) fn byteorder_read_u32(buf: &[u8]) -> (value: u32)
    requires
        buf@.len() >= 4,
    ensures
        value == le_u32_value(buf@),
{
    LittleEndian::read_u32(buf)
}

/// Reads the little-endian `u32` that stands at index `at` of `input`, if
/// four bytes are left there.
pub fn le_u32_in(input: &[u8], at: usize) -> (value: Option<u32>)
    ensures
        match value {
            Some(v) => at + 4 <= input@.len() && v == le_u32_at(input@, at as int),
            None => at + 4 > input@.len(),
        },
{
    let len: usize = input.len();
    if len >= 4 && at <= len - 4 {
        let tail = slice_subrange(input, at, len);
        let v: u32 = byteorder_read_u32(tail);
        assert(tail@.subrange(0, 4) =~= input@.subrange(at as int, at + 4));
        assert(le_u32_value(tail@) == le_u32_value(tail@.subrange(0, 4)));
        Some(v)
    } else {
        None
    }
}

/// Whether two byte slices hold the same bytes.
pub fn bytes_equal(left: &[u8], right: &[u8]) -> (equal: bool)
    ensures
        equal == (left@ == right@),
{
    if left.len() != right.len() {
        return false;
    }
    let mut i: usize = 0;
    while i < left.len()
        invariant
            left@.len() == right@.len(),
            i <= left@.len(),
            forall|k: int| 0 <= k < i ==> left@[k] == right@[k],
        decreases left@.len() - i,
    {
        if left[i] != right[i] {
            return false;
        }
        i += 1;
    }
    assert(left@ =~= right@);
    true
}

} // verus!
