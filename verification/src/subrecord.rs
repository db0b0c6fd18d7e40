//! Subrecords, the typed fields of a record, and their framing.

use crate::bytes::{le_u16_at, le_u32_at, le_u32_value, read_le_u16, read_le_u32};
use crate::error::{Error, ErrorKind};
use crate::game_id::GameId;
use crate::text::string_from_utf8;
use flate2::read::DeflateDecoder;
use std::io::Read;
use vstd::prelude::*;
use vstd::slice::{slice_subrange, slice_to_vec};
use vstd::string::StringExecFns;
use vstd::utf8::{encode_utf8, valid_utf8};

verus! {

/// Number of bytes of a subrecord's type.
pub const SUBRECORD_TYPE_LENGTH: usize = 4;

/// What a DEFLATE decoder of the `flate2` crate reads out of `stream`
/// until the decoder ends; `None` where it reports an error before that.
pub uninterp spec fn inflated(stream: Seq<u8>) -> Option<Seq<u8>>;

/// A typed field of a record.
#[derive(Clone, PartialEq, Eq, Debug, Hash, Default)]
pub struct Subrecord {
    subrecord_type: String,
    data: Vec<u8>,
    is_compressed: bool,
}

/// What a subrecord holds.
pub struct SubrecordView {
    /// The four bytes of the type.
    pub subrecord_type: Seq<u8>,
    /// The payload as it stands in the file.
    pub data: Seq<u8>,
    /// Whether the payload is compressed.
    pub is_compressed: bool,
}

impl View for Subrecord {
    type V = SubrecordView;

    closed spec fn view(&self) -> SubrecordView {
        SubrecordView {
            subrecord_type: encode_utf8(self.subrecord_type@),
            data: self.data@,
            is_compressed: self.is_compressed,
        }
    }
}

/// The type "XXXX" of the subrecord that holds the length of the large
/// subrecord after it.
pub open spec fn large_size_type() -> Seq<u8> {
    seq![0x58u8, 0x58u8, 0x58u8, 0x58u8]
}

/// Number of bytes that stand before a subrecord's payload: the type and
/// a length of four bytes for Morrowind, of two bytes for the other games.
pub open spec fn subrecord_header_length(game_id: GameId) -> int {
    if game_id == GameId::Morrowind {
        8
    } else {
        6
    }
}

/// Length of the payload of the subrecord that `input` begins with. For
/// Morrowind it is the four-byte length in the file. For the other games
/// it is `data_length_override` where that is not zero, and the two-byte
/// length in the file where it is.
pub open spec fn subrecord_data_length(
    input: Seq<u8>,
    game_id: GameId,
    data_length_override: u32,
) -> int
    recommends
        input.len() >= subrecord_header_length(game_id),
{
    if game_id == GameId::Morrowind {
        le_u32_at(input, 4)
    } else if data_length_override > 0 {
        data_length_override as int
    } else {
        le_u16_at(input, 4)
    }
}

/// The subrecord that `input` begins with, and the input that follows it.
///
/// The input is incomplete where it ends before the subrecord does. It is
/// misshapen where the four bytes of the type are not UTF-8.
pub open spec fn parse_subrecord(
    input: Seq<u8>,
    game_id: GameId,
    data_length_override: u32,
    is_compressed: bool,
) -> Result<(Seq<u8>, SubrecordView), ErrorKind> {
    let header_length = subrecord_header_length(game_id);
    let data_length = subrecord_data_length(input, game_id, data_length_override);
    if input.len() < 4 {
        Err(ErrorKind::ParsingIncomplete)
    } else if !valid_utf8(input.subrange(0, 4)) {
        Err(ErrorKind::ParsingError)
    } else if input.len() < header_length + data_length {
        Err(ErrorKind::ParsingIncomplete)
    } else {
        Ok(
            (
                input.subrange(header_length + data_length, input.len() as int),
                SubrecordView {
                    subrecord_type: input.subrange(0, 4),
                    data: input.subrange(header_length, header_length + data_length),
                    is_compressed,
                },
            ),
        )
    }
}

/// The length that a subrecord of type "XXXX" at the start of `input`
/// announces, and the input after it: the little-endian number in the four
/// bytes that follow the type and the two-byte length.
pub open spec fn parse_large_size(input: Seq<u8>) -> Result<(Seq<u8>, u32), ErrorKind> {
    if input.len() < 10 {
        Err(ErrorKind::ParsingIncomplete)
    } else {
        Ok((input.subrange(10, input.len() as int), le_u32_at(input, 6) as u32))
    }
}

/// What a decompressed payload is, given what the decoder made of the
/// stream: the decoder's output where it has the expected length.
pub open spec fn length_checked(expected_length: int, output: Option<Seq<u8>>) -> Result<
    Seq<u8>,
    ErrorKind,
> {
    match output {
        Some(bytes) => if bytes.len() == expected_length {
            Ok(bytes)
        } else {
            Err(ErrorKind::DecodeError)
        },
        None => Err(ErrorKind::DecodeError),
    }
}

/// The payload of a subrecord in the clear.
///
/// A payload that is not compressed stands in the clear already. A
/// compressed payload begins with the length of the clear text in four
/// bytes, and a DEFLATE stream follows; it cannot be decoded where it is
/// shorter than that length field, where the decoder fails on the stream,
/// or where what comes out of the stream has another length.
pub open spec fn decompressed(subrecord: SubrecordView) -> Result<Seq<u8>, ErrorKind> {
    if !subrecord.is_compressed {
        Ok(subrecord.data)
    } else if subrecord.data.len() < 4 {
        Err(ErrorKind::DecodeError)
    } else {
        length_checked(
            le_u32_value(subrecord.data),
            inflated(subrecord.data.subrange(4, subrecord.data.len() as int)),
        )
    }
}

/// Reads a `flate2::read::DeflateDecoder` over the stream to its end with
/// `read_to_end`: the bytes read, or nothing where the decoder reported an
/// error.
#[verifier::external_body]
fn inflate(stream: &[u8]) -> (output: Option<Vec<u8>>)
    ensures
        match output {
            Some(bytes) => inflated(stream@) == Some(bytes@),
            None => inflated(stream@) is None,
        },
{
    let mut output = Vec::new();
    match DeflateDecoder::new(stream).read_to_end(&mut output) {
        Ok(_) => Some(output),
        Err(_) => None,
    }
}

/// Holds what a decoder made of a compressed payload against the length
/// that the payload announced: the output if it has that length, else a
/// decoding error.
pub fn check_inflated_length(expected_length: u32, output: Option<Vec<u8>>) -> (checked: Result<
    Vec<u8>,
    Error,
>)
    ensures
        match length_checked(
            expected_length as int,
            match output {
                Some(bytes) => Some(bytes@),
                None => None,
            },
        ) {
            Ok(bytes) => checked matches Ok(v) && v@ == bytes,
            Err(kind) => checked matches Err(e) && e.spec_kind() == kind,
        },
{
    match output {
        Some(bytes) => {
            if bytes.len() == expected_length as usize {
                Ok(bytes)
            } else {
                Err(
                    Error::DecodeError(
                        String::from_str("Decompressed subrecord has an unexpected length"),
                    ),
                )
            }
        },
        None => Err(
            Error::DecodeError(String::from_str("Compressed subrecord could not be inflated")),
        ),
    }
}

impl Subrecord {
    /// Reads the subrecord that `input` begins with, and returns it with
    /// the input that follows it.
    ///
    /// For Morrowind the payload's length stands in four bytes after the
    /// type. For the other games it stands in two bytes, which are read
    /// over where `data_length_override` is not zero: that is then the
    /// length. `is_compressed` is recorded; the payload is kept as it
    /// stands.
    pub fn new<'a>(
        input: &'a [u8],
        game_id: GameId,
        data_length_override: u32,
        is_compressed: bool,
    ) -> (parsed: Result<(&'a [u8], Subrecord), Error>)
        ensures
            match parse_subrecord(input@, game_id, data_length_override, is_compressed) {
                Ok((rest, subrecord)) => parsed matches Ok((remaining, s)) && remaining@ == rest
                    && s@ == subrecord,
                Err(kind) => parsed matches Err(e) && e.spec_kind() == kind,
            },
    {
        let length: usize = input.len();
        if length < SUBRECORD_TYPE_LENGTH {
            return Err(Error::ParsingIncomplete);
        }
        let subrecord_type = match string_from_utf8(slice_subrange(input, 0, 4)) {
            Some(s) => s,
            None => {
                return Err(Error::ParsingError(String::from_str("Subrecord type is not UTF-8")));
            },
        };
        let header_length: usize = match game_id {
            GameId::Morrowind => 8,
            _ => 6,
        };
        if length < header_length {
            return Err(Error::ParsingIncomplete);
        }
        let data_length: usize = match game_id {
            GameId::Morrowind => read_le_u32(input, 4) as usize,
            _ => if data_length_override > 0 {
                data_length_override as usize
            } else {
                read_le_u16(input, 4) as usize
            },
        };
        if length - header_length < data_length {
            return Err(Error::ParsingIncomplete);
        }
        let data = slice_to_vec(slice_subrange(input, header_length, header_length + data_length));
        let remaining = slice_subrange(input, header_length + data_length, length);
        Ok((remaining, Subrecord { subrecord_type, data, is_compressed }))
    }

    /// The payload in the clear: the payload itself where it is not
    /// compressed, else what the DEFLATE stream after its first four bytes
    /// holds, provided that this has the length that those four bytes
    /// give.
    pub fn decompress_data(&self) -> (clear: Result<Vec<u8>, Error>)
        ensures
            match decompressed(self@) {
                Ok(bytes) => clear matches Ok(v) && v@ == bytes,
                Err(kind) => clear matches Err(e) && e.spec_kind() == kind,
            },
    {
        if !self.is_compressed {
            return Ok(slice_to_vec(self.data.as_slice()));
        }
        let length: usize = self.data.len();
        if length < 4 {
            return Err(
                Error::DecodeError(String::from_str("Compressed subrecord is too small")),
            );
        }
        let expected_length: u32 = read_le_u32(self.data.as_slice(), 0);
        assert(self.data@.subrange(0, 4).subrange(0, 4) =~= self.data@.subrange(0, 4));
        let output = inflate(slice_subrange(self.data.as_slice(), 4, length));
        check_inflated_length(expected_length, output)
    }

    /// The type, four letters.
    pub fn subrecord_type(&self) -> (subrecord_type: &str)
        ensures
            encode_utf8(subrecord_type@) == self@.subrecord_type,
    {
        self.subrecord_type.as_str()
    }

    /// The payload as it stands in the file.
    pub fn data(&self) -> (data: &[u8])
        ensures
            data@ == self@.data,
    {
        self.data.as_slice()
    }

    /// Whether the payload is compressed.
    pub fn is_compressed(&self) -> (is_compressed: bool)
        ensures
            is_compressed == self@.is_compressed,
    {
        self.is_compressed
    }
}

/// Reads the length that a subrecord of type "XXXX" at the start of
/// `input` announces for the subrecord after it, and returns it with the
/// input after the ten bytes of that subrecord.
pub fn parse_subrecord_data_as_u32<'a>(input: &'a [u8]) -> (parsed: Result<(&'a [u8], u32), Error>)
    ensures
        match parse_large_size(input@) {
            Ok((rest, size)) => parsed matches Ok((remaining, s)) && remaining@ == rest && s
                == size,
            Err(kind) => parsed matches Err(e) && e.spec_kind() == kind,
        },
{
    let length: usize = input.len();
    if length < 10 {
        return Err(Error::ParsingIncomplete);
    }
    let size: u32 = read_le_u32(input, 6);
    Ok((slice_subrange(input, 10, length), size))
}

} // verus!
