//! Records, the typed objects of a plugin, and their framing.

use crate::bytes::{bytes_equal, le_u32_at, le_u32_in, read_le_u32};
use crate::error::{Error, ErrorKind};
use crate::game_id::GameId;
use crate::reader::ByteReader;
use crate::subrecord::{
    large_size_type, parse_large_size, parse_subrecord, parse_subrecord_data_as_u32, Subrecord,
    SubrecordView,
};
use crate::text::{has_type, string_from_utf8};
use vstd::prelude::*;
use vstd::slice::slice_subrange;
use vstd::string::StringExecFns;
use vstd::utf8::{encode_utf8, valid_utf8};

verus! {

/// Number of bytes of a record's type.
pub const RECORD_TYPE_LENGTH: usize = 4;

/// The flag of a record whose subrecords are compressed.
pub const COMPRESSED_FLAG: u32 = 0x0004_0000;

/// What stands before the subrecords of a record.
#[derive(Clone, PartialEq, Eq, Debug, Hash, Default)]
pub struct RecordHeader {
    record_type: String,
    flags: u32,
    form_id: u32,
    size_of_subrecords: u32,
}

/// What a record's header holds.
pub struct RecordHeaderView {
    /// The four bytes of the type.
    pub record_type: Seq<u8>,
    /// The flags.
    pub flags: u32,
    /// The form id as it stands in the file; zero for Morrowind, whose
    /// records have none.
    pub form_id: u32,
    /// Number of bytes that the subrecords take.
    pub size_of_subrecords: u32,
}

impl RecordHeaderView {
    /// Whether the flags say that the subrecords are compressed.
    pub open spec fn are_subrecords_compressed(self) -> bool {
        (self.flags & COMPRESSED_FLAG) != 0
    }
}

impl View for RecordHeader {
    type V = RecordHeaderView;

    closed spec fn view(&self) -> RecordHeaderView {
        RecordHeaderView {
            record_type: encode_utf8(self.record_type@),
            flags: self.flags,
            form_id: self.form_id,
            size_of_subrecords: self.size_of_subrecords,
        }
    }
}

impl RecordHeader {
    /// Whether the flags say that the subrecords are compressed.
    pub fn are_subrecords_compressed(&self) -> (compressed: bool)
        ensures
            compressed == self@.are_subrecords_compressed(),
    {
        (self.flags & COMPRESSED_FLAG) != 0
    }

    /// The flags.
    pub fn flags(&self) -> (flags: u32)
        ensures
            flags == self@.flags,
    {
        self.flags
    }

    /// The form id as it stands in the file; zero for Morrowind.
    pub fn form_id(&self) -> (form_id: u32)
        ensures
            form_id == self@.form_id,
    {
        self.form_id
    }

    /// Number of bytes that the subrecords take.
    pub fn size_of_subrecords(&self) -> (size: u32)
        ensures
            size == self@.size_of_subrecords,
    {
        self.size_of_subrecords
    }

    /// The type, four letters.
    pub fn record_type(&self) -> (record_type: &str)
        ensures
            encode_utf8(record_type@) == self@.record_type,
    {
        self.record_type.as_str()
    }
}

/// A record: its header and, unless they were skipped, its subrecords.
#[derive(Clone, PartialEq, Eq, Debug, Hash, Default)]
pub struct Record {
    header: RecordHeader,
    subrecords: Vec<Subrecord>,
}

/// What a record holds.
pub struct RecordView {
    /// The header.
    pub header: RecordHeaderView,
    /// The subrecords in the order of the file, without those of type
    /// "XXXX".
    pub subrecords: Seq<SubrecordView>,
}

/// What each of some subrecords holds.
pub open spec fn subrecord_views(subrecords: Seq<Subrecord>) -> Seq<SubrecordView> {
    Seq::new(subrecords.len(), |i: int| subrecords[i]@)
}

impl View for Record {
    type V = RecordView;

    closed spec fn view(&self) -> RecordView {
        RecordView { header: self.header@, subrecords: subrecord_views(self.subrecords@) }
    }
}

/// Index of the flags in a record's header.
pub open spec fn flags_offset(game_id: GameId) -> int {
    if game_id == GameId::Morrowind {
        12
    } else {
        8
    }
}

/// The header that `input` begins with, and the input that follows it.
///
/// The type comes first, then the size of the subrecords. Morrowind has
/// four unused bytes and then the flags. The other games have the flags,
/// the form id and four unused bytes, or eight for the games after
/// Oblivion. The input is incomplete where it ends before the header does,
/// and misshapen where the four bytes of the type are not UTF-8.
pub open spec fn parse_record_header(input: Seq<u8>, game_id: GameId) -> Result<
    (Seq<u8>, RecordHeaderView),
    ErrorKind,
> {
    let header_length = game_id.spec_header_length() as int;
    if input.len() < 4 {
        Err(ErrorKind::ParsingIncomplete)
    } else if !valid_utf8(input.subrange(0, 4)) {
        Err(ErrorKind::ParsingError)
    } else if input.len() < header_length {
        Err(ErrorKind::ParsingIncomplete)
    } else {
        Ok(
            (
                input.subrange(header_length, input.len() as int),
                RecordHeaderView {
                    record_type: input.subrange(0, 4),
                    flags: le_u32_at(input, flags_offset(game_id)) as u32,
                    form_id: if game_id.spec_uses_form_ids() {
                        le_u32_at(input, 12) as u32
                    } else {
                        0
                    },
                    size_of_subrecords: le_u32_at(input, 4) as u32,
                },
            ),
        )
    }
}

/// `head` before what `tail` holds, or the failure that `tail` is.
pub open spec fn after<T>(head: Seq<T>, tail: Result<Seq<T>, ErrorKind>) -> Result<
    Seq<T>,
    ErrorKind,
> {
    match tail {
        Ok(rest) => Ok(head + rest),
        Err(kind) => Err(kind),
    }
}

/// The subrecords that `input` is made of, from its first byte to its last.
///
/// A subrecord of type "XXXX" is not among them: the number in its payload
/// is the length of the subrecord after it. `data_length_override` is that
/// number where a subrecord of type "XXXX" came just before `input`, else
/// zero.
pub open spec fn parse_subrecord_list(
    input: Seq<u8>,
    game_id: GameId,
    data_length_override: u32,
    are_compressed: bool,
) -> Result<Seq<SubrecordView>, ErrorKind>
    decreases input.len(),
{
    if input.len() == 0 {
        Ok(Seq::empty())
    } else {
        match parse_subrecord(input, game_id, data_length_override, are_compressed) {
            Err(kind) => Err(kind),
            Ok((rest, subrecord)) => {
                if subrecord.subrecord_type == large_size_type() {
                    match parse_large_size(input) {
                        Err(kind) => Err(kind),
                        Ok((_, size)) => parse_subrecord_list(rest, game_id, size, are_compressed),
                    }
                } else {
                    after(seq![subrecord], parse_subrecord_list(rest, game_id, 0, are_compressed))
                }
            },
        }
    }
}

/// Whether the subrecords of a record with this header are compressed:
/// the header's flag says so, and the game is not Morrowind.
pub open spec fn compresses_subrecords(header: RecordHeaderView, game_id: GameId) -> bool {
    header.are_subrecords_compressed() && game_id != GameId::Morrowind
}

/// The record that `input` begins with, and the input that follows it.
///
/// After the header stand as many bytes as the header says, which hold the
/// subrecords. With `skip_subrecords` they are passed over and the record
/// has no subrecords.
pub open spec fn parse_record(input: Seq<u8>, game_id: GameId, skip_subrecords: bool) -> Result<
    (Seq<u8>, RecordView),
    ErrorKind,
> {
    match parse_record_header(input, game_id) {
        Err(kind) => Err(kind),
        Ok((after_header, header)) => {
            let size = header.size_of_subrecords as int;
            if after_header.len() < size {
                Err(ErrorKind::ParsingIncomplete)
            } else {
                let rest = after_header.subrange(size, after_header.len() as int);
                if skip_subrecords {
                    Ok((rest, RecordView { header, subrecords: Seq::empty() }))
                } else {
                    match parse_subrecord_list(
                        after_header.subrange(0, size),
                        game_id,
                        0,
                        compresses_subrecords(header, game_id),
                    ) {
                        Err(kind) => Err(kind),
                        Ok(subrecords) => Ok((rest, RecordView { header, subrecords })),
                    }
                }
            }
        },
    }
}

/// The form id of the record that `input` begins with, and the input that
/// follows the record. The form id is zero for Morrowind, whose records
/// have none. The input is incomplete where it ends before the record
/// does; nothing else is asked of it.
pub open spec fn parse_record_form_id(input: Seq<u8>, game_id: GameId) -> Result<
    (Seq<u8>, u32),
    ErrorKind,
> {
    let header_length = game_id.spec_header_length() as int;
    let size = le_u32_at(input, 4);
    if input.len() < header_length || input.len() < header_length + size {
        Err(ErrorKind::ParsingIncomplete)
    } else {
        Ok(
            (
                input.subrange(header_length + size, input.len() as int),
                if game_id.spec_uses_form_ids() {
                    le_u32_at(input, 12) as u32
                } else {
                    0
                },
            ),
        )
    }
}

/// Number of bytes that the subrecords take in the record of which
/// `header` is the header, where that record has the expected type. The
/// header is incomplete where it is shorter than the game's headers are,
/// and misshapen where its type is not `expected_type`.
pub open spec fn announced_size(header: Seq<u8>, game_id: GameId, expected_type: Seq<u8>) -> Result<
    int,
    ErrorKind,
> {
    if header.len() < game_id.spec_header_length() {
        Err(ErrorKind::ParsingIncomplete)
    } else if header.subrange(0, 4) != expected_type {
        Err(ErrorKind::ParsingError)
    } else {
        Ok(le_u32_at(header, 4))
    }
}

/// What is read of a record from a source of which `unread` is left: the
/// bytes of the record, header and subrecords. The source ends early where
/// it has not that many bytes; the record is misshapen where its type is
/// not `expected_type`.
pub open spec fn read_record(unread: Seq<u8>, game_id: GameId, expected_type: Seq<u8>) -> Result<
    Seq<u8>,
    ErrorKind,
> {
    let header_length = game_id.spec_header_length() as int;
    let size = le_u32_at(unread, 4);
    if unread.len() < header_length {
        Err(ErrorKind::Io)
    } else if unread.subrange(0, 4) != expected_type {
        Err(ErrorKind::ParsingError)
    } else if unread.len() < header_length + size {
        Err(ErrorKind::Io)
    } else {
        Ok(unread.subrange(0, header_length + size))
    }
}

/// Number of bytes that [`Record::read_and_validate`] takes from a source
/// of which `unread` is left: the record where it is read, the header
/// where the type is not the expected one, and all that is left where the
/// source ends early.
pub open spec fn read_record_consumes(unread: Seq<u8>, game_id: GameId, expected_type: Seq<u8>) -> int {
    let header_length = game_id.spec_header_length() as int;
    match read_record(unread, game_id, expected_type) {
        Ok(bytes) => bytes.len() as int,
        Err(ErrorKind::ParsingError) => header_length,
        Err(_) => unread.len() as int,
    }
}

/// Reads the header that `input` begins with.
fn record_header<'a>(input: &'a [u8], game_id: GameId) -> (parsed: Result<
    (&'a [u8], RecordHeader),
    Error,
>)
    ensures
        match parse_record_header(input@, game_id) {
            Ok((rest, header)) => parsed matches Ok((remaining, h)) && remaining@ == rest && h@
                == header,
            Err(kind) => parsed matches Err(e) && e.spec_kind() == kind,
        },
{
    let length: usize = input.len();
    if length < RECORD_TYPE_LENGTH {
        return Err(Error::ParsingIncomplete);
    }
    let record_type = match string_from_utf8(slice_subrange(input, 0, 4)) {
        Some(s) => s,
        None => {
            return Err(Error::ParsingError(String::from_str("Record type is not UTF-8")));
        },
    };
    let header_length: usize = game_id.header_length();
    if length < header_length {
        return Err(Error::ParsingIncomplete);
    }
    let size_of_subrecords: u32 = read_le_u32(input, 4);
    let flags: u32 = match game_id {
        GameId::Morrowind => read_le_u32(input, 12),
        _ => read_le_u32(input, 8),
    };
    let form_id: u32 = if game_id.uses_form_ids() {
        read_le_u32(input, 12)
    } else {
        0
    };
    Ok(
        (
            slice_subrange(input, header_length, length),
            RecordHeader { record_type, flags, form_id, size_of_subrecords },
        ),
    )
}

/// Reads the subrecords that `input` is made of.
fn parse_subrecords<'a>(input: &'a [u8], game_id: GameId, are_compressed: bool) -> (parsed: Result<
    (&'a [u8], Vec<Subrecord>),
    Error,
>)
    ensures
        match parse_subrecord_list(input@, game_id, 0, are_compressed) {
            Ok(subrecords) => parsed matches Ok((remaining, list)) && remaining@.len() == 0
                && subrecord_views(list@) == subrecords,
            Err(kind) => parsed matches Err(e) && e.spec_kind() == kind,
        },
{
    let large_size: [u8; 4] = [0x58, 0x58, 0x58, 0x58];
    assert(large_size@ =~= large_size_type());
    let mut input1: &[u8] = input;
    let mut subrecords: Vec<Subrecord> = Vec::new();
    let mut large_subrecord_size: u32 = 0;
    assert(subrecord_views(subrecords@) + Seq::<SubrecordView>::empty() =~= Seq::empty());
    assert(subrecord_views(subrecords@) =~= Seq::empty());

    while !input1.is_empty()
        invariant
            large_size@ == large_size_type(),
            parse_subrecord_list(input@, game_id, 0, are_compressed) == after(
                subrecord_views(subrecords@),
                parse_subrecord_list(input1@, game_id, large_subrecord_size, are_compressed),
            ),
        decreases input1@.len(),
    {
        let ghost before = subrecord_views(subrecords@);
        let (input2, subrecord) = match Subrecord::new(
            input1,
            game_id,
            large_subrecord_size,
            are_compressed,
        ) {
            Ok(pair) => pair,
            Err(e) => {
                return Err(e);
            },
        };
        if has_type(subrecord.subrecord_type(), &large_size) {
            large_subrecord_size = match parse_subrecord_data_as_u32(input1) {
                Ok((_, size)) => size,
                Err(e) => {
                    return Err(e);
                },
            };
        } else {
            large_subrecord_size = 0;
            let ghost tail = parse_subrecord_list(input2@, game_id, 0, are_compressed);
            subrecords.push(subrecord);
            proof {
                assert(subrecord_views(subrecords@) =~= before + seq![subrecord@]);
                match tail {
                    Ok(rest) => {
                        assert(before + (seq![subrecord@] + rest) =~= (before + seq![
                            subrecord@,
                        ]) + rest);
                    },
                    Err(_) => {},
                }
            }
        }
        input1 = input2;
    }
    proof {
        assert(subrecord_views(subrecords@) + Seq::<SubrecordView>::empty() =~= subrecord_views(
            subrecords@,
        ));
    }
    Ok((input1, subrecords))
}

/// Reads the record that `input` begins with.
fn record<'a>(input: &'a [u8], game_id: GameId, skip_subrecords: bool) -> (parsed: Result<
    (&'a [u8], Record),
    Error,
>)
    ensures
        match parse_record(input@, game_id, skip_subrecords) {
            Ok((rest, record)) => parsed matches Ok((remaining, r)) && remaining@ == rest && r@
                == record,
            Err(kind) => parsed matches Err(e) && e.spec_kind() == kind,
        },
{
    let (input1, header) = match record_header(input, game_id) {
        Ok(pair) => pair,
        Err(e) => {
            return Err(e);
        },
    };
    let size: usize = header.size_of_subrecords as usize;
    if input1.len() < size {
        return Err(Error::ParsingIncomplete);
    }
    let subrecords_data = slice_subrange(input1, 0, size);
    let input2 = slice_subrange(input1, size, input1.len());

    let subrecords: Vec<Subrecord> = if !skip_subrecords {
        let are_compressed = header.are_subrecords_compressed() && !matches!(
            game_id,
            GameId::Morrowind
        );
        match parse_subrecords(subrecords_data, game_id, are_compressed) {
            Ok((_, list)) => list,
            Err(e) => {
                return Err(e);
            },
        }
    } else {
        let list: Vec<Subrecord> = Vec::new();
        assert(subrecord_views(list@) =~= Seq::empty());
        list
    };

    Ok((input2, Record { header, subrecords }))
}

impl Record {
    /// Reads a record of the expected type from `reader`: first the header,
    /// then as many bytes as the header says the subrecords take. Returns
    /// the bytes of the whole record.
    ///
    /// Fails with an I/O error where the source ends before the record
    /// does, and with a parsing error where the record's type is not
    /// `expected_type`.
    pub fn read_and_validate(
        reader: &mut ByteReader,
        game_id: GameId,
        expected_type: &[u8],
    ) -> (read: Result<Vec<u8>, Error>)
        ensures
            final(reader)@.data == old(reader)@.data,
            final(reader)@.position == old(reader)@.position + read_record_consumes(
                old(reader)@.unread(),
                game_id,
                expected_type@,
            ),
            match read_record(old(reader)@.unread(), game_id, expected_type@) {
                Ok(bytes) => read matches Ok(content) && content@ == bytes,
                Err(kind) => read matches Err(e) && e.spec_kind() == kind,
            },
    {
        let ghost unread = reader@.unread();
        let header_length: usize = game_id.header_length();
        let mut content: Vec<u8> = match reader.read_exact(header_length) {
            Ok(bytes) => bytes,
            Err(e) => {
                return Err(e);
            },
        };
        assert(content@ =~= unread.subrange(0, header_length as int));
        assert(content@.subrange(0, 4) =~= unread.subrange(0, 4));

        let size_of_subrecords: usize = match Record::size_of_subrecords_in(
            content.as_slice(),
            game_id,
            expected_type,
        ) {
            Ok(size) => size,
            Err(e) => {
                return Err(e);
            },
        };
        assert(content@.subrange(4, 8) =~= unread.subrange(4, 8));
        if size_of_subrecords > 0 {
            let ghost unread_after_header = reader@.unread();
            assert(unread_after_header =~= unread.subrange(
                header_length as int,
                unread.len() as int,
            ));
            let mut subrecords: Vec<u8> = match reader.read_exact(size_of_subrecords) {
                Ok(bytes) => bytes,
                Err(e) => {
                    return Err(e);
                },
            };
            content.append(&mut subrecords);
            assert(content@ =~= unread.subrange(0, header_length + size_of_subrecords));
        }
        Ok(content)
    }

    /// Holds the header of a record against the expected type, and returns
    /// the number of bytes that the subrecords take after it. A caller that
    /// reads a file piece by piece learns from it how much to read next.
    pub fn size_of_subrecords_in(header: &[u8], game_id: GameId, expected_type: &[u8]) -> (size:
        Result<usize, Error>)
        ensures
            match announced_size(header@, game_id, expected_type@) {
                Ok(announced) => size matches Ok(s) && s == announced,
                Err(kind) => size matches Err(e) && e.spec_kind() == kind,
            },
    {
        if header.len() < game_id.header_length() {
            return Err(Error::ParsingIncomplete);
        }
        if !bytes_equal(slice_subrange(header, 0, 4), expected_type) {
            return Err(Error::ParsingError(String::from_str("Record is not of expected type.")));
        }
        match le_u32_in(header, 4) {
            Some(size) => Ok(size as usize),
            None => Err(Error::ParsingIncomplete),
        }
    }

    /// Reads the record that `input` begins with, and returns it with the
    /// input that follows it. With `skip_subrecords` the subrecords are
    /// passed over and the record has none.
    pub fn parse<'a>(input: &'a [u8], game_id: GameId, skip_subrecords: bool) -> (parsed: Result<
        (&'a [u8], Record),
        Error,
    >)
        ensures
            match parse_record(input@, game_id, skip_subrecords) {
                Ok((rest, record)) => parsed matches Ok((remaining, r)) && remaining@ == rest
                    && r@ == record,
                Err(kind) => parsed matches Err(e) && e.spec_kind() == kind,
            },
    {
        record(input, game_id, skip_subrecords)
    }

    /// Reads the form id of the record that `input` begins with, without
    /// looking at the rest of the record, and returns it with the input
    /// that follows the record. The form id is zero for Morrowind.
    pub fn parse_form_id<'a>(input: &'a [u8], game_id: GameId) -> (parsed: Result<
        (&'a [u8], u32),
        Error,
    >)
        ensures
            match parse_record_form_id(input@, game_id) {
                Ok((rest, form_id)) => parsed matches Ok((remaining, id)) && remaining@ == rest
                    && id == form_id,
                Err(kind) => parsed matches Err(e) && e.spec_kind() == kind,
            },
    {
        let length: usize = input.len();
        let header_length: usize = game_id.header_length();
        if length < header_length {
            return Err(Error::ParsingIncomplete);
        }
        let size_of_subrecords: usize = read_le_u32(input, 4) as usize;
        if length - header_length < size_of_subrecords {
            return Err(Error::ParsingIncomplete);
        }
        let form_id: u32 = if game_id.uses_form_ids() {
            read_le_u32(input, 12)
        } else {
            0
        };
        Ok((slice_subrange(input, header_length + size_of_subrecords, length), form_id))
    }

    /// The header.
    pub fn header(&self) -> (header: &RecordHeader)
        ensures
            header@ == self@.header,
    {
        &self.header
    }

    /// The subrecords in the order of the file, without those of type
    /// "XXXX"; none where they were skipped.
    pub fn subrecords(&self) -> (subrecords: &[Subrecord])
        ensures
            subrecord_views(subrecords@) == self@.subrecords,
    {
        self.subrecords.as_slice()
    }
}

/// Length in bytes of a record's header for a game.
pub fn header_length(game_id: GameId) -> (length: usize)
    ensures
        length == game_id.spec_header_length(),
{
    game_id.header_length()
}

} // verus!
