//! Groups, the containers of records in the plugins of every game but
//! Morrowind, and the walk that collects the form ids of the records of a
//! plugin's body.

use crate::bytes::{bytes_equal, le_u32_at, read_le_u32};
use crate::error::{Error, ErrorKind};
use crate::game_id::GameId;
use crate::record::{after, parse_record_form_id, Record};
use vstd::prelude::*;
use vstd::slice::slice_subrange;
use vstd::string::StringExecFns;

verus! {

/// Length in bytes of a group's header: the type, the size of the group,
/// a label, the kind of group, a stamp and a version.
pub const GROUP_HEADER_LENGTH: usize = 24;

/// The type "GRUP" that opens a group.
pub open spec fn group_type() -> Seq<u8> {
    seq![0x47u8, 0x52u8, 0x55u8, 0x50u8]
}

/// Whether `input` begins with the type of a group.
pub open spec fn begins_group(input: Seq<u8>) -> bool {
    input.len() >= 4 && input.subrange(0, 4) == group_type()
}

/// The size of the group that `input` begins with, header and body.
///
/// The input is incomplete where it ends before the group does. It is
/// misshapen where it does not begin with the type of a group, or where the
/// size is smaller than a header.
pub open spec fn group_size(input: Seq<u8>) -> Result<int, ErrorKind> {
    if input.len() < 4 {
        Err(ErrorKind::ParsingIncomplete)
    } else if input.subrange(0, 4) != group_type() {
        Err(ErrorKind::ParsingError)
    } else if input.len() < GROUP_HEADER_LENGTH {
        Err(ErrorKind::ParsingIncomplete)
    } else if le_u32_at(input, 4) < GROUP_HEADER_LENGTH {
        Err(ErrorKind::ParsingError)
    } else if input.len() < le_u32_at(input, 4) {
        Err(ErrorKind::ParsingIncomplete)
    } else {
        Ok(le_u32_at(input, 4))
    }
}

/// The raw form ids of the records that `input` is made of, from its first
/// byte to its last, in the order of the file.
///
/// What begins with the type of a group is a group: the records in its
/// body come next, those of the groups in it included. Anything else is a
/// record, of which only the form id is read. At the top level of a plugin
/// only groups are in order.
pub open spec fn parse_entries(input: Seq<u8>, game_id: GameId, top_level: bool) -> Result<
    Seq<u32>,
    ErrorKind,
>
    decreases input.len(),
{
    if input.len() == 0 {
        Ok(Seq::empty())
    } else if begins_group(input) || top_level {
        match group_size(input) {
            Err(kind) => Err(kind),
            Ok(size) => match parse_entries(
                input.subrange(GROUP_HEADER_LENGTH as int, size),
                game_id,
                false,
            ) {
                Err(kind) => Err(kind),
                Ok(inner) => after(
                    inner,
                    parse_entries(input.subrange(size, input.len() as int), game_id, top_level),
                ),
            },
        }
    } else {
        match parse_record_form_id(input, game_id) {
            Err(kind) => Err(kind),
            Ok((rest, form_id)) => after(
                seq![form_id],
                parse_entries(rest, game_id, top_level),
            ),
        }
    }
}

/// The raw form ids of the records that `input` is made of, where it holds
/// records only, one after the other.
pub open spec fn parse_flat_records(input: Seq<u8>, game_id: GameId) -> Result<Seq<u32>, ErrorKind>
    decreases input.len(),
{
    if input.len() == 0 {
        Ok(Seq::empty())
    } else {
        match parse_record_form_id(input, game_id) {
            Err(kind) => Err(kind),
            Ok((rest, form_id)) => after(seq![form_id], parse_flat_records(rest, game_id)),
        }
    }
}

/// The raw form ids of the records in the body of a plugin, which is what
/// follows the header record: for Morrowind the records stand one after the
/// other, for the other games they stand in groups.
pub open spec fn parse_body(input: Seq<u8>, game_id: GameId) -> Result<Seq<u32>, ErrorKind> {
    if game_id == GameId::Morrowind {
        parse_flat_records(input, game_id)
    } else {
        parse_entries(input, game_id, true)
    }
}

/// Whether `input` begins with the type of a group.
fn is_group(input: &[u8]) -> (is: bool)
    ensures
        is == begins_group(input@),
{
    if input.len() < 4 {
        return false;
    }
    let expected: [u8; 4] = [0x47, 0x52, 0x55, 0x50];
    assert(expected@ =~= group_type());
    bytes_equal(slice_subrange(input, 0, 4), expected.as_slice())
}

/// Reads the size of the group that `input` begins with.
fn read_group_size(input: &[u8]) -> (read: Result<usize, Error>)
    ensures
        match group_size(input@) {
            Ok(size) => read matches Ok(s) && s == size && GROUP_HEADER_LENGTH <= s
                <= input@.len(),
            Err(kind) => read matches Err(e) && e.spec_kind() == kind,
        },
{
    let length: usize = input.len();
    if length < 4 {
        return Err(Error::ParsingIncomplete);
    }
    if !is_group(input) {
        return Err(Error::ParsingError(String::from_str("Group type is not GRUP")));
    }
    if length < GROUP_HEADER_LENGTH {
        return Err(Error::ParsingIncomplete);
    }
    let size: usize = read_le_u32(input, 4) as usize;
    if size < GROUP_HEADER_LENGTH {
        return Err(Error::ParsingError(String::from_str("Group is smaller than its header")));
    }
    if length < size {
        return Err(Error::ParsingIncomplete);
    }
    Ok(size)
}

/// Collects the raw form ids of the records that `input` is made of,
/// groups and records, behind those that `form_ids` holds already.
fn collect_entries(input: &[u8], game_id: GameId, top_level: bool, form_ids: &mut Vec<u32>) -> (read:
    Result<(), Error>)
    ensures
        match parse_entries(input@, game_id, top_level) {
            Ok(ids) => read is Ok && final(form_ids)@ == old(form_ids)@ + ids,
            Err(kind) => read matches Err(e) && e.spec_kind() == kind,
        },
    decreases input@.len(),
{
    let mut input1: &[u8] = input;
    let ghost initial = form_ids@;
    let ghost mut found: Seq<u32> = Seq::empty();
    assert(initial + found =~= initial);

    while !input1.is_empty()
        invariant
            input1@.len() <= input@.len(),
            form_ids@ == initial + found,
            parse_entries(input@, game_id, top_level) == after(
                found,
                parse_entries(input1@, game_id, top_level),
            ),
        decreases input1@.len(),
    {
        let input2: &[u8];
        if top_level || is_group(input1) {
            let size: usize = match read_group_size(input1) {
                Ok(size) => size,
                Err(e) => {
                    return Err(e);
                },
            };
            let ghost before = form_ids@;
            match collect_entries(
                slice_subrange(input1, GROUP_HEADER_LENGTH, size),
                game_id,
                false,
                form_ids,
            ) {
                Ok(()) => {},
                Err(e) => {
                    return Err(e);
                },
            }
            input2 = slice_subrange(input1, size, input1.len());
            proof {
                let inner = parse_entries(
                    input1@.subrange(GROUP_HEADER_LENGTH as int, size as int),
                    game_id,
                    false,
                )->Ok_0;
                assert(form_ids@ == before + inner);
                let tail = parse_entries(input2@, game_id, top_level);
                if tail is Ok {
                    assert(found + (inner + tail->Ok_0) =~= (found + inner) + tail->Ok_0);
                }
                assert(initial + (found + inner) =~= (initial + found) + inner);
                found = found + inner;
            }
        } else {
            let (rest, form_id) = match Record::parse_form_id(input1, game_id) {
                Ok(pair) => pair,
                Err(e) => {
                    return Err(e);
                },
            };
            form_ids.push(form_id);
            input2 = rest;
            proof {
                let tail = parse_entries(input2@, game_id, top_level);
                if tail is Ok {
                    assert(found + (seq![form_id] + tail->Ok_0) =~= (found + seq![form_id])
                        + tail->Ok_0);
                }
                assert(initial + (found + seq![form_id]) =~= (initial + found).push(form_id));
                found = found + seq![form_id];
            }
        }
        input1 = input2;
    }
    proof {
        assert(found + Seq::<u32>::empty() =~= found);
    }
    Ok(())
}

/// Collects the raw form ids of the records that `input` is made of, where
/// it holds records only.
fn collect_flat_records(input: &[u8], game_id: GameId) -> (read: Result<Vec<u32>, Error>)
    ensures
        match parse_flat_records(input@, game_id) {
            Ok(ids) => read matches Ok(form_ids) && form_ids@ == ids,
            Err(kind) => read matches Err(e) && e.spec_kind() == kind,
        },
{
    let mut input1: &[u8] = input;
    let mut form_ids: Vec<u32> = Vec::new();

    while !input1.is_empty()
        invariant
            parse_flat_records(input@, game_id) == after(
                form_ids@,
                parse_flat_records(input1@, game_id),
            ),
        decreases input1@.len(),
    {
        let ghost before = form_ids@;
        let (rest, form_id) = match Record::parse_form_id(input1, game_id) {
            Ok(pair) => pair,
            Err(e) => {
                return Err(e);
            },
        };
        form_ids.push(form_id);
        proof {
            let tail = parse_flat_records(rest@, game_id);
            if tail is Ok {
                assert(before + (seq![form_id] + tail->Ok_0) =~= before.push(form_id)
                    + tail->Ok_0);
            }
        }
        input1 = rest;
    }
    proof {
        assert(form_ids@ + Seq::<u32>::empty() =~= form_ids@);
    }
    Ok(form_ids)
}

/// Reads the raw form ids of the records in the body of a plugin, in the
/// order of the file. For Morrowind the body is a sequence of records. For
/// the other games it is a sequence of groups, and a group holds records
/// and groups.
pub fn parse_record_ids(input: &[u8], game_id: GameId) -> (read: Result<Vec<u32>, Error>)
    ensures
        match parse_body(input@, game_id) {
            Ok(ids) => read matches Ok(form_ids) && form_ids@ == ids,
            Err(kind) => read matches Err(e) && e.spec_kind() == kind,
        },
{
    match game_id {
        GameId::Morrowind => collect_flat_records(input, game_id),
        _ => {
            let mut form_ids: Vec<u32> = Vec::new();
            match collect_entries(input, game_id, true, &mut form_ids) {
                Ok(()) => {
                    assert(Seq::<u32>::empty() + form_ids@ =~= form_ids@);
                    Ok(form_ids)
                },
                Err(e) => Err(e),
            }
        },
    }
}

} // verus!
