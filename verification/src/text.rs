//! Strings in plugin files: four-letter types, which are UTF-8, and names
//! and descriptions, which are Windows-1252 and end at a NUL byte.

use crate::bytes::bytes_equal;
use encoding::all::WINDOWS_1252;
use encoding::{DecoderTrap, Encoding};
use vstd::prelude::*;
use vstd::slice::slice_subrange;
use vstd::string::StringExecFns;
use vstd::utf8::{encode_utf8, valid_utf8};

verus! {

/// Calls `String::from_utf8` of std, which accepts exactly the byte
/// sequences that are valid UTF-8 and makes of them the string that has
/// these bytes.
#[verifier::external_body]
pub(crate) fn string_from_utf8(bytes: &[u8]) -> (text: Option<String>)
    ensures
        text is Some <==> valid_utf8(bytes@),
        text matches Some(s) ==> encode_utf8(s@) == bytes@,
{
    String::from_utf8(bytes.to_vec()).ok()
}

/// Calls `Encoding::decode` of the `encoding` crate on its `WINDOWS_1252`
/// with `DecoderTrap::Strict`. The decoder takes the bytes one by one: a
/// byte below 0x80 as the ASCII character, any other as its index of the
/// code page tells. Of the five bytes to which Windows-1252 gives no
/// character nothing is claimed.
#[verifier::external_body]
pub(crate) fn windows_1252_decode(bytes: &[u8]) -> (text: Result<String, String>)
    requires
        all_defined_in_windows_1252(bytes@),
    ensures
        text is Ok,
        text matches Ok(s) ==> s@ == windows_1252_chars(bytes@),
{
    match WINDOWS_1252.decode(bytes, DecoderTrap::Strict) {
        Ok(s) => Ok(s),
        Err(e) => Err(e.into_owned()),
    }
}

/// Whether `text` is the four letters whose bytes are `expected`.
pub fn has_type(text: &str, expected: &[u8; 4]) -> (is: bool)
    ensures
        is == (encode_utf8(text@) == expected@),
{
    bytes_equal(text.as_bytes(), expected.as_slice())
}

/// Index of the first NUL byte of `bytes`, or their number if none is NUL.
pub open spec fn nul_position(bytes: Seq<u8>) -> int
    decreases bytes.len(),
{
    if bytes.len() == 0 || bytes[0] == 0 {
        0
    } else {
        1 + nul_position(bytes.drop_first())
    }
}

/// The bytes of `bytes` that stand before its first NUL byte; all of them
/// if none is NUL.
pub open spec fn nul_terminated(bytes: Seq<u8>) -> Seq<u8> {
    bytes.subrange(0, nul_position(bytes))
}

/// The first NUL byte of a sequence stands at an index within it, after
/// bytes that are not NUL, or the sequence has none.
pub proof fn lemma_nul_position(bytes: Seq<u8>)
    ensures
        0 <= nul_position(bytes) <= bytes.len(),
        forall|k: int| 0 <= k < nul_position(bytes) ==> bytes[k] != 0,
        nul_position(bytes) < bytes.len() ==> bytes[nul_position(bytes)] == 0,
    decreases bytes.len(),
{
    if bytes.len() == 0 || bytes[0] == 0 {
    } else {
        let tail = bytes.drop_first();
        lemma_nul_position(tail);
        assert forall|k: int| 0 <= k < nul_position(bytes) implies bytes[k] != 0 by {
            if k > 0 {
                assert(bytes[k] == tail[k - 1]);
            }
        }
        if nul_position(bytes) < bytes.len() {
            assert(bytes[nul_position(bytes)] == tail[nul_position(tail)]);
        }
    }
}

/// An index at which a NUL byte stands after bytes that are not NUL is the
/// position of the first NUL byte; so is the length of a sequence without
/// a NUL byte.
pub proof fn lemma_nul_position_is(bytes: Seq<u8>, at: int)
    requires
        0 <= at <= bytes.len(),
        forall|k: int| 0 <= k < at ==> bytes[k] != 0,
        at < bytes.len() ==> bytes[at] == 0,
    ensures
        nul_position(bytes) == at,
{
    lemma_nul_position(bytes);
}

/// The part of `bytes` before its first NUL byte; all of it if none is NUL.
pub fn until_nul(bytes: &[u8]) -> (prefix: &[u8])
    ensures
        prefix@ == nul_terminated(bytes@),
{
    let mut i: usize = 0;
    while i < bytes.len() && bytes[i] != 0
        invariant
            i <= bytes@.len(),
            forall|k: int| 0 <= k < i ==> bytes@[k] != 0,
        decreases bytes@.len() - i,
    {
        i += 1;
    }
    proof {
        lemma_nul_position_is(bytes@, i as int);
    }
    slice_subrange(bytes, 0, i)
}

/// Whether Windows-1252 gives no character to the byte.
pub open spec fn is_undefined_in_windows_1252(byte: u8) -> bool {
    byte == 0x81 || byte == 0x8D || byte == 0x8F || byte == 0x90 || byte == 0x9D
}

/// Whether Windows-1252 gives a character to each of the bytes.
pub open spec fn all_defined_in_windows_1252(bytes: Seq<u8>) -> bool {
    forall|i: int| 0 <= i < bytes.len() ==> !is_undefined_in_windows_1252(#[trigger] bytes[i])
}

/// The character that a byte stands for in Windows-1252. From 0x80 to
/// 0x9F the code page has characters of its own; every other byte stands
/// for the character with the byte's number.
pub open spec fn windows_1252_char(byte: u8) -> char {
    match byte {
        0x80 => '\u{20AC}',  // 8364, euro sign
        0x82 => '\u{201A}',  // 8218
        0x83 => '\u{0192}',  // 402
        0x84 => '\u{201E}',  // 8222
        0x85 => '\u{2026}',  // 8230
        0x86 => '\u{2020}',  // 8224
        0x87 => '\u{2021}',  // 8225
        0x88 => '\u{02C6}',  // 710
        0x89 => '\u{2030}',  // 8240
        0x8A => '\u{0160}',  // 352
        0x8B => '\u{2039}',  // 8249
        0x8C => '\u{0152}',  // 338
        0x8E => '\u{017D}',  // 381
        0x91 => '\u{2018}',  // 8216
        0x92 => '\u{2019}',  // 8217
        0x93 => '\u{201C}',  // 8220
        0x94 => '\u{201D}',  // 8221
        0x95 => '\u{2022}',  // 8226
        0x96 => '\u{2013}',  // 8211
        0x97 => '\u{2014}',  // 8212
        0x98 => '\u{02DC}',  // 732
        0x99 => '\u{2122}',  // 8482
        0x9A => '\u{0161}',  // 353
        0x9B => '\u{203A}',  // 8250
        0x9C => '\u{0153}',  // 339
        0x9E => '\u{017E}',  // 382
        0x9F => '\u{0178}',  // 376
        _ => byte as char,
    }
}

/// The text that the bytes spell in Windows-1252, character by character.
pub open spec fn windows_1252_chars(bytes: Seq<u8>) -> Seq<char> {
    Seq::new(bytes.len(), |i: int| windows_1252_char(bytes[i]))
}

/// The text that the bytes spell in Windows-1252; none where one of them
/// has no character in it.
pub open spec fn decoded_text(bytes: Seq<u8>) -> Option<Seq<char>> {
    if all_defined_in_windows_1252(bytes) {
        Some(windows_1252_chars(bytes))
    } else {
        None
    }
}

/// Whether Windows-1252 gives a character to each of the bytes.
pub fn is_defined_in_windows_1252(bytes: &[u8]) -> (defined: bool)
    ensures
        defined == all_defined_in_windows_1252(bytes@),
{
    let mut i: usize = 0;
    while i < bytes.len()
        invariant
            i <= bytes@.len(),
            forall|k: int| 0 <= k < i ==> !is_undefined_in_windows_1252(#[trigger] bytes@[k]),
        decreases bytes@.len() - i,
    {
        let byte: u8 = bytes[i];
        if byte == 0x81 || byte == 0x8D || byte == 0x8F || byte == 0x90 || byte == 0x9D {
            return false;
        }
        i += 1;
    }
    true
}

/// Decodes a NUL-terminated Windows-1252 string: the bytes before the
/// first NUL byte (all of them if none is NUL) as text. Where one of them
/// has no character in Windows-1252 the reason is returned.
pub fn decode_nul_terminated(bytes: &[u8]) -> (text: Result<String, String>)
    ensures
        match text {
            Ok(s) => decoded_text(nul_terminated(bytes@)) == Some(s@),
            Err(_) => decoded_text(nul_terminated(bytes@)) is None,
        },
{
    let content: &[u8] = until_nul(bytes);
    if !is_defined_in_windows_1252(content) {
        return Err(String::from_str("A byte has no character in Windows-1252"));
    }
    windows_1252_decode(content)
}

} // verus!
