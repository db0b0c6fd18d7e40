//! A plugin: its path, its game, and what was read of its file.

use crate::bytes::{le_u32_at, le_u32_in};
use crate::error::{Error, ErrorKind};
use crate::form_id::{mod_index_of, name_views, resolved_form_id, FormId, FormIdView};
use crate::game_id::GameId;
use crate::group::{parse_body, parse_record_ids};
use crate::overlap::{
    entry_views, form_ids_overlap, have_common_form_id, lemma_common_form_id_reflexive,
    lemma_common_form_id_symmetric,
};
use crate::path::{
    esl_extension, esm_extension, filename_has_extension, has_extension, path_file_name,
};
use crate::record::{after, parse_record, subrecord_views, Record, RecordView};
use crate::subrecord::{Subrecord, SubrecordView};
use crate::text::{decode_nul_terminated, decoded_text, has_type, nul_terminated};
use vstd::prelude::*;
use vstd::string::StringExecFns;
use vstd::utf8::encode_utf8;

verus! {

/// The flag of a header record that marks the plugin as a master file.
pub const MASTER_FLAG: u32 = 0x0000_0001;

/// The flag of a header record that marks the plugin as a light master.
pub const LIGHT_MASTER_FLAG: u32 = 0x0000_0200;

/// The type "HEDR" of the subrecord with the header's numbers.
pub open spec fn hedr_type() -> Seq<u8> {
    seq![0x48u8, 0x45u8, 0x44u8, 0x52u8]
}

/// The type "MAST" of a subrecord that names a master.
pub open spec fn mast_type() -> Seq<u8> {
    seq![0x4Du8, 0x41u8, 0x53u8, 0x54u8]
}

/// The type "SNAM" of the subrecord with the description.
pub open spec fn snam_type() -> Seq<u8> {
    seq![0x53u8, 0x4Eu8, 0x41u8, 0x4Du8]
}

/// The type "ONAM" of the subrecord that lists overridden records.
pub open spec fn onam_type() -> Seq<u8> {
    seq![0x4Fu8, 0x4Eu8, 0x41u8, 0x4Du8]
}

/// The first of the subrecords that has the given type.
pub open spec fn first_of_type(subrecords: Seq<SubrecordView>, subrecord_type: Seq<u8>) -> Option<
    SubrecordView,
>
    decreases subrecords.len(),
{
    if subrecords.len() == 0 {
        None
    } else if subrecords[0].subrecord_type == subrecord_type {
        Some(subrecords[0])
    } else {
        first_of_type(subrecords.drop_first(), subrecord_type)
    }
}

/// The names of the masters that a header record lists: the payload of
/// each subrecord of type "MAST", in the order of the file, read as a
/// NUL-terminated Windows-1252 string.
pub open spec fn decoded_masters(subrecords: Seq<SubrecordView>) -> Result<
    Seq<Seq<char>>,
    ErrorKind,
>
    decreases subrecords.len(),
{
    if subrecords.len() == 0 {
        Ok(Seq::empty())
    } else if subrecords[0].subrecord_type == mast_type() {
        match decoded_text(nul_terminated(subrecords[0].data)) {
            None => Err(ErrorKind::DecodeError),
            Some(name) => after(seq![name], decoded_masters(subrecords.drop_first())),
        }
    } else {
        decoded_masters(subrecords.drop_first())
    }
}

/// The description that a header record holds: the payload of its first
/// subrecord of type "SNAM", read as a NUL-terminated Windows-1252 string;
/// none where it has no such subrecord.
pub open spec fn decoded_description(subrecords: Seq<SubrecordView>) -> Result<
    Option<Seq<char>>,
    ErrorKind,
> {
    match first_of_type(subrecords, snam_type()) {
        None => Ok(None),
        Some(subrecord) => match decoded_text(nul_terminated(subrecord.data)) {
            None => Err(ErrorKind::DecodeError),
            Some(text) => Ok(Some(text)),
        },
    }
}

/// The little-endian numbers that stand in `data` one after the other,
/// four bytes each; bytes left over at the end are not read.
pub open spec fn packed_numbers(data: Seq<u8>) -> Seq<u32> {
    Seq::new(data.len() / 4, |i: int| le_u32_at(data, 4 * i) as u32)
}

/// The form ids that the raw form ids of a plugin's records stand for, each
/// with the mark of an override: a record overrides one of a master where
/// its raw form id points into the plugin's masters.
pub open spec fn resolved_form_ids(
    filename: Seq<char>,
    masters: Seq<Seq<char>>,
    raw_form_ids: Seq<u32>,
) -> Seq<(FormIdView, bool)> {
    Seq::new(
        raw_form_ids.len(),
        |i: int|
            (
                resolved_form_id(filename, masters, raw_form_ids[i]),
                mod_index_of(raw_form_ids[i]) < masters.len(),
            ),
    )
}

/// What was read of a plugin's file.
pub struct PluginDataView {
    /// The header record with its subrecords.
    pub header_record: RecordView,
    /// The names of the masters, in the order of the file.
    pub masters: Seq<Seq<char>>,
    /// The description, where the header has one.
    pub description: Option<Seq<char>>,
    /// The form ids of the records of the body in the order of the file,
    /// each with the mark of an override; none where only the header was
    /// read.
    pub form_ids: Option<Seq<(FormIdView, bool)>>,
}

/// What a plugin's file holds, whatever the name of the plugin.
pub struct PluginContentView {
    /// The header record with its subrecords.
    pub header_record: RecordView,
    /// The names of the masters, in the order of the file.
    pub masters: Seq<Seq<char>>,
    /// The description, where the header has one.
    pub description: Option<Seq<char>>,
    /// The raw form ids of the records of the body in the order of the
    /// file; none where only the header was read.
    pub raw_form_ids: Option<Seq<u32>>,
}

/// What a plugin's file holds.
///
/// The file begins with the header record, whose type is the game's. Its
/// subrecords name the masters and hold the description. Unless only the
/// header is asked for, the rest of the file is walked for the form ids of
/// its records.
pub open spec fn parse_plugin_content(input: Seq<u8>, game_id: GameId, header_only: bool) -> Result<
    PluginContentView,
    ErrorKind,
> {
    match parse_record(input, game_id, false) {
        Err(kind) => Err(kind),
        Ok((rest, header_record)) => {
            if header_record.header.record_type != game_id.spec_top_record_type() {
                Err(ErrorKind::ParsingError)
            } else {
                match decoded_masters(header_record.subrecords) {
                    Err(kind) => Err(kind),
                    Ok(masters) => match decoded_description(header_record.subrecords) {
                        Err(kind) => Err(kind),
                        Ok(description) => {
                            if header_only {
                                Ok(
                                    PluginContentView {
                                        header_record,
                                        masters,
                                        description,
                                        raw_form_ids: None,
                                    },
                                )
                            } else {
                                match parse_body(rest, game_id) {
                                    Err(kind) => Err(kind),
                                    Ok(raw_form_ids) => Ok(
                                        PluginContentView {
                                            header_record,
                                            masters,
                                            description,
                                            raw_form_ids: Some(raw_form_ids),
                                        },
                                    ),
                                }
                            }
                        },
                    },
                }
            }
        },
    }
}

/// What reading a file gives for a plugin of the given file name: what the
/// file holds, with the raw form ids resolved against the masters and the
/// file name.
pub open spec fn parse_plugin(
    input: Seq<u8>,
    game_id: GameId,
    filename: Seq<char>,
    header_only: bool,
) -> Result<PluginDataView, ErrorKind> {
    match parse_plugin_content(input, game_id, header_only) {
        Err(kind) => Err(kind),
        Ok(content) => Ok(
            PluginDataView {
                header_record: content.header_record,
                masters: content.masters,
                description: content.description,
                form_ids: match content.raw_form_ids {
                    Some(raw_form_ids) => Some(
                        resolved_form_ids(filename, content.masters, raw_form_ids),
                    ),
                    None => None,
                },
            },
        ),
    }
}

/// Number of the entries of a list of form ids that are marked as
/// overrides.
pub open spec fn count_overrides(form_ids: Seq<(FormIdView, bool)>) -> nat
    decreases form_ids.len(),
{
    if form_ids.len() == 0 {
        0
    } else {
        count_overrides(form_ids.drop_last()) + if form_ids.last().1 {
            1nat
        } else {
            0nat
        }
    }
}

/// Whether every entry of a list of form ids that is not marked as an
/// override has its object index from `first` to `last`.
pub open spec fn own_records_within(form_ids: Seq<(FormIdView, bool)>, first: u32, last: u32) -> bool {
    forall|i: int|
        0 <= i < form_ids.len() && !(#[trigger] form_ids[i]).1 ==> first
            <= form_ids[i].0.object_index <= last
}

/// What a plugin holds.
pub struct PluginView {
    /// The game of the plugin.
    pub game_id: GameId,
    /// The path of the file.
    pub path: Seq<char>,
    /// The final component of the path, where it has one.
    pub filename: Option<Seq<char>>,
    /// What was read of the file; nothing before the first reading.
    pub data: Option<PluginDataView>,
}

impl PluginView {
    /// The flags of the header record; none is set before the first
    /// reading.
    pub open spec fn header_flags(self) -> u32 {
        match self.data {
            Some(data) => data.header_record.header.flags,
            None => 0,
        }
    }

    /// The subrecords of the header record; none before the first reading.
    pub open spec fn header_subrecords(self) -> Seq<SubrecordView> {
        match self.data {
            Some(data) => data.header_record.subrecords,
            None => Seq::empty(),
        }
    }

    /// Whether the file name has the extension.
    pub open spec fn has_extension(self, extension: Seq<u8>) -> bool {
        match self.filename {
            Some(filename) => has_extension(encode_utf8(filename), extension),
            None => false,
        }
    }

    /// The names of the masters; none before the first reading.
    pub open spec fn masters(self) -> Seq<Seq<char>> {
        match self.data {
            Some(data) => data.masters,
            None => Seq::empty(),
        }
    }

    /// The description, where one was read.
    pub open spec fn description(self) -> Option<Seq<char>> {
        match self.data {
            Some(data) => data.description,
            None => None,
        }
    }

    /// The number that stands in the payload of the header's "HEDR"
    /// subrecord at index `at`, where the header has that subrecord and its
    /// payload is long enough.
    pub open spec fn header_number(self, at: int) -> Option<u32> {
        match first_of_type(self.header_subrecords(), hedr_type()) {
            Some(subrecord) => if at + 4 <= subrecord.data.len() {
                Some(le_u32_at(subrecord.data, at) as u32)
            } else {
                None
            },
            None => None,
        }
    }

    /// The version of the header as the bits of a single-precision float.
    pub open spec fn header_version_bits(self) -> Option<u32> {
        self.header_number(4)
    }

    /// The number of records and groups that the header announces.
    pub open spec fn record_and_group_count(self) -> Option<u32> {
        self.header_number(0)
    }

    /// Whether the plugin counts as empty: its header announces no records
    /// and groups, or does not say how many there are.
    pub open spec fn is_empty(self) -> bool {
        match self.record_and_group_count() {
            Some(count) => count == 0,
            None => true,
        }
    }

    /// The raw form ids of the records that the header lists as
    /// overridden, in its "ONAM" subrecord; none where it has no such
    /// subrecord.
    pub open spec fn overridden_form_ids(self) -> Seq<u32> {
        match first_of_type(self.header_subrecords(), onam_type()) {
            Some(subrecord) => packed_numbers(subrecord.data),
            None => Seq::empty(),
        }
    }

    /// The form ids of the records; none where none were read.
    pub open spec fn form_ids(self) -> Seq<(FormIdView, bool)> {
        match self.data {
            Some(data) => match data.form_ids {
                Some(form_ids) => form_ids,
                None => Seq::empty(),
            },
            None => Seq::empty(),
        }
    }

    /// Whether the plugin is a master file. A Morrowind plugin is one
    /// where its extension is "esm". A plugin of another game is one where
    /// its header has the master flag, where its extension is "esm", or
    /// where its extension is "esl" and the game knows light masters.
    pub open spec fn is_master_file(self) -> bool {
        if self.game_id == GameId::Morrowind {
            self.has_extension(esm_extension())
        } else {
            (self.header_flags() & MASTER_FLAG) != 0 || self.has_extension(esm_extension()) || (
            self.game_id.spec_supports_light_master() && self.has_extension(esl_extension()))
        }
    }

    /// Whether the plugin is a light master: the game knows light masters,
    /// and the extension is "esl" or the header has the light master flag.
    pub open spec fn is_light_master_file(self) -> bool {
        self.game_id.spec_supports_light_master() && (self.has_extension(esl_extension()) || (
        self.header_flags() & LIGHT_MASTER_FLAG) != 0)
    }

    /// Whether the plugin could be a light master: the game knows light
    /// masters, and each record that is the plugin's own has its object
    /// index in the range that the game leaves to light masters.
    pub open spec fn is_valid_as_light_master(self) -> bool {
        match self.game_id.spec_light_master_form_id_range() {
            Some((first, last)) => own_records_within(self.form_ids(), first, last),
            None => false,
        }
    }

    /// Number of the records that override a record of a master.
    pub open spec fn count_override_records(self) -> nat {
        count_overrides(self.form_ids())
    }

    /// Whether this plugin and the other have a record in common.
    pub open spec fn overlaps_with(self, other: PluginView) -> bool {
        have_common_form_id(self.form_ids(), other.form_ids())
    }

    /// Whether what the plugin holds hangs together. A plugin of which
    /// something was read has a file name. Its header record has the type
    /// of its game, its masters and its description are those that the
    /// header record holds, and its form ids are raw form ids resolved
    /// against its masters and its file name.
    pub open spec fn well_formed(self) -> bool {
        match self.data {
            None => true,
            Some(data) => {
                &&& self.filename is Some
                &&& data.header_record.header.record_type == self.game_id.spec_top_record_type()
                &&& decoded_masters(data.header_record.subrecords) == Ok::<
                    Seq<Seq<char>>,
                    ErrorKind,
                >(data.masters)
                &&& decoded_description(data.header_record.subrecords) == Ok::<
                    Option<Seq<char>>,
                    ErrorKind,
                >(data.description)
                &&& data.form_ids matches Some(form_ids) ==> exists|raw_form_ids: Seq<u32>|
                    form_ids == #[trigger] resolved_form_ids(
                        self.filename->Some_0,
                        data.masters,
                        raw_form_ids,
                    )
            },
        }
    }

    /// What reading `input` as the file of this plugin gives: the failure,
    /// or the plugin after the reading.
    pub open spec fn parsed(self, input: Seq<u8>, header_only: bool) -> Result<
        PluginView,
        ErrorKind,
    > {
        match self.filename {
            None => Err(ErrorKind::NoFilename),
            Some(filename) => match parse_plugin(input, self.game_id, filename, header_only) {
                Err(kind) => Err(kind),
                Ok(data) => Ok(PluginView { data: Some(data), ..self }),
            },
        }
    }

    /// Whether `input` can be read as the file of this plugin: the plugin
    /// has a file name, and the input has the shape of a plugin of its
    /// game.
    pub open spec fn accepts(self, input: Seq<u8>, header_only: bool) -> bool {
        self.filename is Some && parse_plugin_content(input, self.game_id, header_only) is Ok
    }
}

/// What was read of a plugin's file.
#[derive(Debug)]
struct PluginData {
    header_record: Record,
    masters: Vec<String>,
    description: Option<String>,
    form_ids: Option<Vec<(FormId, bool)>>,
}

impl View for PluginData {
    type V = PluginDataView;

    closed spec fn view(&self) -> PluginDataView {
        PluginDataView {
            header_record: self.header_record@,
            masters: name_views(self.masters@),
            description: match self.description {
                Some(text) => Some(text@),
                None => None,
            },
            form_ids: match self.form_ids {
                Some(form_ids) => Some(entry_views(form_ids@)),
                None => None,
            },
        }
    }
}

/// A plugin: its game, its path, and what was read of its file.
#[derive(Debug)]
pub struct Plugin {
    game_id: GameId,
    path: String,
    filename: Option<String>,
    data: Option<PluginData>,
}

impl View for Plugin {
    type V = PluginView;

    closed spec fn view(&self) -> PluginView {
        PluginView {
            game_id: self.game_id,
            path: self.path@,
            filename: match self.filename {
                Some(filename) => Some(filename@),
                None => None,
            },
            data: match self.data {
                Some(data) => Some(data@),
                None => None,
            },
        }
    }
}

/// Finds the first of the subrecords that has the given type.
fn find_subrecord<'a>(subrecords: &'a [Subrecord], subrecord_type: &[u8; 4]) -> (found: Option<
    &'a Subrecord,
>)
    ensures
        match first_of_type(subrecord_views(subrecords@), subrecord_type@) {
            Some(subrecord) => found matches Some(s) && s@ == subrecord,
            None => found is None,
        },
{
    let ghost views = subrecord_views(subrecords@);
    let mut i: usize = 0;
    assert(views.subrange(0, views.len() as int) =~= views);
    while i < subrecords.len()
        invariant
            i <= subrecords@.len(),
            views == subrecord_views(subrecords@),
            first_of_type(views, subrecord_type@) == first_of_type(
                views.subrange(i as int, views.len() as int),
                subrecord_type@,
            ),
        decreases subrecords@.len() - i,
    {
        let ghost tail = views.subrange(i as int, views.len() as int);
        assert(tail[0] == subrecords@[i as int]@);
        assert(tail.drop_first() =~= views.subrange(i + 1, views.len() as int));
        if has_type(subrecords[i].subrecord_type(), subrecord_type) {
            return Some(&subrecords[i]);
        }
        i += 1;
    }
    None
}

/// Reads the names of the masters out of the subrecords of a header
/// record.
fn read_masters(subrecords: &[Subrecord]) -> (read: Result<Vec<String>, Error>)
    ensures
        match decoded_masters(subrecord_views(subrecords@)) {
            Ok(names) => read matches Ok(masters) && name_views(masters@) == names,
            Err(kind) => read matches Err(e) && e.spec_kind() == kind,
        },
{
    let ghost views = subrecord_views(subrecords@);
    let mast: [u8; 4] = [0x4D, 0x41, 0x53, 0x54];
    assert(mast@ =~= mast_type());
    let mut masters: Vec<String> = Vec::new();
    let mut i: usize = 0;
    assert(views.subrange(0, views.len() as int) =~= views);
    assert(name_views(masters@) =~= Seq::empty());
    assert(decoded_masters(views) is Ok ==> Seq::<Seq<char>>::empty() + decoded_masters(
        views,
    )->Ok_0 =~= decoded_masters(views)->Ok_0);
    while i < subrecords.len()
        invariant
            i <= subrecords@.len(),
            views == subrecord_views(subrecords@),
            mast@ == mast_type(),
            decoded_masters(views) == after(
                name_views(masters@),
                decoded_masters(views.subrange(i as int, views.len() as int)),
            ),
        decreases subrecords@.len() - i,
    {
        let ghost tail = views.subrange(i as int, views.len() as int);
        let ghost before = name_views(masters@);
        assert(tail[0] == subrecords@[i as int]@);
        assert(tail.drop_first() =~= views.subrange(i + 1, views.len() as int));
        if has_type(subrecords[i].subrecord_type(), &mast) {
            let name = match decode_nul_terminated(subrecords[i].data()) {
                Ok(name) => name,
                Err(complaint) => {
                    return Err(Error::DecodeError(complaint));
                },
            };
            let ghost name_view = name@;
            masters.push(name);
            proof {
                assert(name_views(masters@) =~= before + seq![name_view]);
                let rest = decoded_masters(tail.drop_first());
                if rest is Ok {
                    assert(before + (seq![name_view] + rest->Ok_0) =~= (before + seq![name_view])
                        + rest->Ok_0);
                }
            }
        }
        i += 1;
    }
    proof {
        assert(name_views(masters@) + Seq::<Seq<char>>::empty() =~= name_views(masters@));
    }
    Ok(masters)
}

/// Reads the description out of the subrecords of a header record.
fn read_description(subrecords: &[Subrecord]) -> (read: Result<Option<String>, Error>)
    ensures
        match decoded_description(subrecord_views(subrecords@)) {
            Ok(Some(text)) => read matches Ok(Some(description)) && description@ == text,
            Ok(None) => read matches Ok(None),
            Err(kind) => read matches Err(e) && e.spec_kind() == kind,
        },
{
    let snam: [u8; 4] = [0x53, 0x4E, 0x41, 0x4D];
    assert(snam@ =~= snam_type());
    match find_subrecord(subrecords, &snam) {
        None => Ok(None),
        Some(subrecord) => match decode_nul_terminated(subrecord.data()) {
            Ok(text) => Ok(Some(text)),
            Err(complaint) => Err(Error::DecodeError(complaint)),
        },
    }
}

/// Resolves the raw form ids of a plugin's records against its masters.
fn resolve_form_ids(filename: &str, masters: &Vec<String>, raw_form_ids: &Vec<u32>) -> (form_ids:
    Vec<(FormId, bool)>)
    ensures
        entry_views(form_ids@) == resolved_form_ids(
            filename@,
            name_views(masters@),
            raw_form_ids@,
        ),
{
    let mut form_ids: Vec<(FormId, bool)> = Vec::new();
    let mut i: usize = 0;
    while i < raw_form_ids.len()
        invariant
            i <= raw_form_ids@.len(),
            form_ids@.len() == i,
            forall|k: int|
                0 <= k < i ==> (#[trigger] form_ids@[k]).0@ == resolved_form_id(
                    filename@,
                    name_views(masters@),
                    raw_form_ids@[k],
                ) && form_ids@[k].1 == (mod_index_of(raw_form_ids@[k]) < masters@.len()),
        decreases raw_form_ids@.len() - i,
    {
        let raw: u32 = raw_form_ids[i];
        let form_id = FormId::new(filename, masters.as_slice(), raw);
        let is_override: bool = ((raw >> 24) as usize) < masters.len();
        form_ids.push((form_id, is_override));
        i += 1;
    }
    assert(entry_views(form_ids@) =~= resolved_form_ids(
        filename@,
        name_views(masters@),
        raw_form_ids@,
    ));
    form_ids
}

/// Reads the file of a plugin of the given game and file name.
fn parse_plugin_data(input: &[u8], game_id: GameId, filename: &str, header_only: bool) -> (parsed:
    Result<PluginData, Error>)
    ensures
        match parse_plugin(input@, game_id, filename@, header_only) {
            Ok(data) => parsed matches Ok(d) && d@ == data,
            Err(kind) => parsed matches Err(e) && e.spec_kind() == kind,
        },
{
    let (rest, header_record) = match Record::parse(input, game_id, false) {
        Ok(pair) => pair,
        Err(e) => {
            return Err(e);
        },
    };
    if !has_type(header_record.header().record_type(), &game_id.top_record_type()) {
        return Err(Error::ParsingError(String::from_str("Header record is not of the game's type")));
    }
    let masters = match read_masters(header_record.subrecords()) {
        Ok(masters) => masters,
        Err(e) => {
            return Err(e);
        },
    };
    let description = match read_description(header_record.subrecords()) {
        Ok(description) => description,
        Err(e) => {
            return Err(e);
        },
    };
    let form_ids = if header_only {
        None
    } else {
        match parse_record_ids(rest, game_id) {
            Ok(raw_form_ids) => Some(resolve_form_ids(filename, &masters, &raw_form_ids)),
            Err(e) => {
                return Err(e);
            },
        }
    };
    Ok(PluginData { header_record, masters, description, form_ids })
}

/// Counts the entries of a list of form ids that are marked as overrides.
fn count_marked(form_ids: &[(FormId, bool)]) -> (count: usize)
    ensures
        count == count_overrides(entry_views(form_ids@)),
{
    let ghost views = entry_views(form_ids@);
    let mut count: usize = 0;
    let mut i: usize = 0;
    while i < form_ids.len()
        invariant
            i <= form_ids@.len(),
            views == entry_views(form_ids@),
            count <= i,
            count == count_overrides(views.subrange(0, i as int)),
        decreases form_ids@.len() - i,
    {
        assert(views.subrange(0, i + 1).drop_last() =~= views.subrange(0, i as int));
        assert(views.subrange(0, i + 1).last() == views[i as int]);
        if form_ids[i].1 {
            count += 1;
        }
        i += 1;
    }
    assert(views.subrange(0, views.len() as int) =~= views);
    count
}

/// Whether each entry of a list of form ids that is not marked as an
/// override has its object index from `first` to `last`.
fn own_records_are_within(form_ids: &[(FormId, bool)], first: u32, last: u32) -> (within: bool)
    ensures
        within == own_records_within(entry_views(form_ids@), first, last),
{
    let ghost views = entry_views(form_ids@);
    let mut i: usize = 0;
    while i < form_ids.len()
        invariant
            i <= form_ids@.len(),
            views == entry_views(form_ids@),
            forall|k: int|
                0 <= k < i && !(#[trigger] views[k]).1 ==> first <= views[k].0.object_index
                    <= last,
        decreases form_ids@.len() - i,
    {
        let entry = &form_ids[i];
        assert(views[i as int] == (entry.0@, entry.1));
        if !entry.1 && (entry.0.object_index < first || entry.0.object_index > last) {
            return false;
        }
        i += 1;
    }
    true
}

impl Plugin {
    /// What the plugin holds hangs together.
    #[verifier::type_invariant]
    spec fn holds_together(&self) -> bool {
        self@.well_formed()
    }

    /// A plugin of the given game, path and file name, of which nothing was
    /// read yet.
    pub fn with_filename(game_id: GameId, path: &str, filename: Option<String>) -> (plugin: Plugin)
        ensures
            plugin@ == (PluginView {
                game_id,
                path: path@,
                filename: match filename {
                    Some(name) => Some(name@),
                    None => None,
                },
                data: None,
            }),
    {
        Plugin { game_id, path: String::from_str(path), filename, data: None }
    }

    /// A plugin of the given game and path, of which nothing was read yet.
    /// Its file name is the final component of the path, as the platform
    /// sees it.
    pub fn new(game_id: GameId, path: &str) -> (plugin: Plugin)
        ensures
            plugin@.game_id == game_id,
            plugin@.path == path@,
            plugin@.data is None,
            plugin@.well_formed(),
    {
        Plugin::with_filename(game_id, path, path_file_name(path))
    }

    /// Reads `input` as the file of this plugin. With `header_only` the
    /// header record alone is read, and the plugin then holds no form ids.
    ///
    /// What was read replaces what the plugin held. Where the reading
    /// fails the plugin stays as it was.
    pub fn parse(&mut self, input: &[u8], header_only: bool) -> (read: Result<(), Error>)
        ensures
            match old(self)@.parsed(input@, header_only) {
                Ok(plugin) => read is Ok && final(self)@ == plugin,
                Err(kind) => read matches Err(e) && e.spec_kind() == kind && final(self)@ == old(
                    self,
                )@,
            },
            final(self)@.well_formed(),
    {
        proof {
            use_type_invariant(&*self);
        }
        let data = match &self.filename {
            None => {
                return Err(Error::NoFilename);
            },
            Some(filename) => match parse_plugin_data(
                input,
                self.game_id,
                filename.as_str(),
                header_only,
            ) {
                Ok(data) => data,
                Err(e) => {
                    return Err(e);
                },
            },
        };
        proof {
            lemma_read_plugin_is_well_formed(old(self)@, input@, header_only);
        }
        self.data = Some(data);
        Ok(())
    }

    /// Whether `input` can be read as the file of this plugin. Nothing of
    /// it is kept.
    pub fn accepts(&self, input: &[u8], header_only: bool) -> (accepted: bool)
        ensures
            accepted == self@.accepts(input@, header_only),
    {
        match &self.filename {
            None => false,
            Some(filename) => parse_plugin_data(
                input,
                self.game_id,
                filename.as_str(),
                header_only,
            ).is_ok(),
        }
    }

    /// Whether `input` can be read as the file at `path` of a plugin of the
    /// given game: whether a plugin made for that game and path could read
    /// it. No failure is reported, and nothing is kept.
    pub fn is_valid(game_id: GameId, path: &str, input: &[u8], header_only: bool) -> (valid: bool)
        ensures
            valid ==> parse_plugin_content(input@, game_id, header_only) is Ok,
            exists|plugin: PluginView|
                plugin.game_id == game_id && plugin.path == path@ && plugin.data is None && valid
                    == #[trigger] plugin.accepts(input@, header_only),
    {
        let plugin = Plugin::new(game_id, path);
        plugin.accepts(input, header_only)
    }

    /// The game of the plugin.
    pub fn game_id(&self) -> (game_id: GameId)
        ensures
            game_id == self@.game_id,
    {
        self.game_id
    }

    /// The path of the file.
    pub fn path(&self) -> (path: &str)
        ensures
            path@ == self@.path,
    {
        self.path.as_str()
    }

    /// The file name: the final component of the path, where it has one.
    pub fn filename(&self) -> (filename: Option<String>)
        ensures
            match self@.filename {
                Some(name) => filename matches Some(f) && f@ == name,
                None => filename is None,
            },
    {
        match &self.filename {
            Some(filename) => Some(filename.clone()),
            None => None,
        }
    }

    /// The header record, once the file was read.
    pub fn header_record(&self) -> (header_record: Option<&Record>)
        ensures
            match self@.data {
                Some(data) => header_record matches Some(record) && record@ == data.header_record,
                None => header_record is None,
            },
            self@.well_formed(),
    {
        proof {
            use_type_invariant(self);
        }
        match &self.data {
            Some(data) => Some(&data.header_record),
            None => None,
        }
    }

    /// The names of the masters in the order of the file; none before the
    /// first reading.
    pub fn masters(&self) -> (masters: Vec<String>)
        ensures
            name_views(masters@) == self@.masters(),
            self@.well_formed(),
    {
        proof {
            use_type_invariant(self);
        }
        let mut masters: Vec<String> = Vec::new();
        match &self.data {
            None => {
                assert(name_views(masters@) =~= Seq::empty());
            },
            Some(data) => {
                let mut i: usize = 0;
                while i < data.masters.len()
                    invariant
                        i <= data.masters@.len(),
                        masters@.len() == i,
                        forall|k: int| 0 <= k < i ==> (#[trigger] masters@[k])@ == data.masters@[k]@,
                    decreases data.masters@.len() - i,
                {
                    masters.push(data.masters[i].clone());
                    i += 1;
                }
                assert(name_views(masters@) =~= name_views(data.masters@));
            },
        }
        masters
    }

    /// The description, where the header has one.
    pub fn description(&self) -> (description: Option<String>)
        ensures
            match self@.description() {
                Some(text) => description matches Some(d) && d@ == text,
                None => description is None,
            },
    {
        match &self.data {
            Some(data) => match &data.description {
                Some(text) => Some(text.clone()),
                None => None,
            },
            None => None,
        }
    }

    /// The number at index `at` of the payload of the header's "HEDR"
    /// subrecord.
    fn header_number(&self, at: usize) -> (number: Option<u32>)
        requires
            at <= 4,
        ensures
            number == self@.header_number(at as int),
    {
        let hedr: [u8; 4] = [0x48, 0x45, 0x44, 0x52];
        assert(hedr@ =~= hedr_type());
        match &self.data {
            None => {
                assert(subrecord_views(Seq::<Subrecord>::empty()) =~= Seq::empty());
                None
            },
            Some(data) => match find_subrecord(data.header_record.subrecords(), &hedr) {
                Some(subrecord) => le_u32_in(subrecord.data(), at),
                None => None,
            },
        }
    }

    /// The version that the header gives, as the bits of the
    /// single-precision float that it is; none where the header has no
    /// "HEDR" subrecord of eight bytes or more.
    pub fn header_version_bits(&self) -> (bits: Option<u32>)
        ensures
            bits == self@.header_version_bits(),
    {
        self.header_number(4)
    }

    /// The number of records and groups that the header announces; none
    /// where the header has no "HEDR" subrecord of four bytes or more.
    pub fn record_and_group_count(&self) -> (count: Option<u32>)
        ensures
            count == self@.record_and_group_count(),
    {
        self.header_number(0)
    }

    /// Whether the plugin counts as empty: its header announces no records
    /// and groups, or does not say how many there are.
    pub fn is_empty(&self) -> (is_empty: bool)
        ensures
            is_empty == self@.is_empty(),
    {
        match self.record_and_group_count() {
            Some(count) => count == 0,
            None => true,
        }
    }

    /// The raw form ids of the records that the header lists as
    /// overridden.
    pub fn overridden_form_ids(&self) -> (form_ids: Vec<u32>)
        ensures
            form_ids@ == self@.overridden_form_ids(),
    {
        let onam: [u8; 4] = [0x4F, 0x4E, 0x41, 0x4D];
        assert(onam@ =~= onam_type());
        let mut form_ids: Vec<u32> = Vec::new();
        match &self.data {
            None => {
                assert(subrecord_views(Seq::<Subrecord>::empty()) =~= Seq::empty());
            },
            Some(data) => match find_subrecord(data.header_record.subrecords(), &onam) {
                None => {},
                Some(subrecord) => {
                    let bytes: &[u8] = subrecord.data();
                    let count: usize = bytes.len() / 4;
                    let mut i: usize = 0;
                    while i < count
                        invariant
                            count == bytes@.len() / 4,
                            4 * count <= bytes@.len() <= usize::MAX,
                            i <= count,
                            form_ids@.len() == i,
                            forall|k: int|
                                0 <= k < i ==> #[trigger] form_ids@[k] == le_u32_at(bytes@, 4 * k),
                        decreases count - i,
                    {
                        let number: u32 = match le_u32_in(bytes, 4 * i) {
                            Some(number) => number,
                            None => 0,
                        };
                        form_ids.push(number);
                        i += 1;
                    }
                    assert(form_ids@ =~= packed_numbers(bytes@));
                },
            },
        }
        form_ids
    }

    /// The flags of the header record; none is set before the first
    /// reading.
    fn header_flags(&self) -> (flags: u32)
        ensures
            flags == self@.header_flags(),
    {
        match &self.data {
            Some(data) => data.header_record.header().flags(),
            None => 0,
        }
    }

    /// Whether the file name has the extension.
    fn has_extension(&self, extension: &[u8; 3]) -> (has: bool)
        ensures
            has == self@.has_extension(extension@),
    {
        match &self.filename {
            Some(filename) => filename_has_extension(filename.as_str(), extension),
            None => false,
        }
    }

    /// Whether the plugin is a master file. A Morrowind plugin is one
    /// where its extension is "esm". A plugin of another game is one where
    /// its header has the master flag, where its extension is "esm", or
    /// where its extension is "esl" and the game knows light masters.
    pub fn is_master_file(&self) -> (is_master: bool)
        ensures
            is_master == self@.is_master_file(),
    {
        let esm: [u8; 3] = [0x65, 0x73, 0x6D];
        let esl: [u8; 3] = [0x65, 0x73, 0x6C];
        assert(esm@ =~= esm_extension());
        assert(esl@ =~= esl_extension());
        match self.game_id {
            GameId::Morrowind => self.has_extension(&esm),
            _ => (self.header_flags() & MASTER_FLAG) != 0 || self.has_extension(&esm) || (
            self.game_id.supports_light_master() && self.has_extension(&esl)),
        }
    }

    /// Whether the plugin is a light master: the game knows light masters,
    /// and the extension is "esl" or the header has the light master flag.
    pub fn is_light_master_file(&self) -> (is_light_master: bool)
        ensures
            is_light_master == self@.is_light_master_file(),
    {
        let esl: [u8; 3] = [0x65, 0x73, 0x6C];
        assert(esl@ =~= esl_extension());
        self.game_id.supports_light_master() && (self.has_extension(&esl) || (self.header_flags()
            & LIGHT_MASTER_FLAG) != 0)
    }

    /// Whether the plugin could be a light master: the game knows light
    /// masters, and each record that is the plugin's own has its object
    /// index in the range that the game leaves to light masters.
    pub fn is_valid_as_light_master(&self) -> (is_valid: bool)
        ensures
            is_valid == self@.is_valid_as_light_master(),
    {
        match self.game_id.light_master_form_id_range() {
            None => false,
            Some((first, last)) => match &self.data {
                Some(data) => match &data.form_ids {
                    Some(form_ids) => own_records_are_within(form_ids.as_slice(), first, last),
                    None => true,
                },
                None => true,
            },
        }
    }

    /// Number of the records that override a record of a master; zero
    /// where no form ids were read.
    pub fn count_override_records(&self) -> (count: usize)
        ensures
            count == self@.count_override_records(),
    {
        match &self.data {
            Some(data) => match &data.form_ids {
                Some(form_ids) => count_marked(form_ids.as_slice()),
                None => 0,
            },
            None => 0,
        }
    }

    /// Whether this plugin and the other have a record in common: a form
    /// id of the one is equal to a form id of the other. A plugin of which
    /// no form ids were read has none in common with any.
    pub fn overlaps_with(&self, other: &Plugin) -> (overlaps: bool)
        ensures
            overlaps == self@.overlaps_with(other@),
    {
        let ours = match &self.data {
            Some(data) => match &data.form_ids {
                Some(form_ids) => form_ids,
                None => {
                    return false;
                },
            },
            None => {
                return false;
            },
        };
        let theirs = match &other.data {
            Some(data) => match &data.form_ids {
                Some(form_ids) => form_ids,
                None => {
                    return false;
                },
            },
            None => {
                return false;
            },
        };
        form_ids_overlap(ours.as_slice(), theirs.as_slice())
    }
}

/// What a plugin holds after a reading hangs together.
pub proof fn lemma_read_plugin_is_well_formed(plugin: PluginView, input: Seq<u8>, header_only: bool)
    ensures
        plugin.parsed(input, header_only) matches Ok(read) ==> read.well_formed(),
{
    if plugin.parsed(input, header_only) is Ok {
        let read = plugin.parsed(input, header_only)->Ok_0;
        let content = parse_plugin_content(input, plugin.game_id, header_only)->Ok_0;
        if content.raw_form_ids is Some {
            let raw_form_ids = content.raw_form_ids->Some_0;
            assert(read.data->Some_0.form_ids->Some_0 == resolved_form_ids(
                plugin.filename->Some_0,
                content.masters,
                raw_form_ids,
            ));
        }
    }
}

/// A plugin accepts an input exactly where reading the input succeeds.
pub proof fn lemma_accepted_iff_parse_succeeds(plugin: PluginView, input: Seq<u8>, header_only: bool)
    ensures
        plugin.accepts(input, header_only) <==> plugin.parsed(input, header_only) is Ok,
{
}

/// What can be asked of a plugin of which only the header was read.
///
/// Where the whole file can be read, so can the header alone, and both
/// readings give the same masters, description, header version, count of
/// records and groups, list of overridden records and file name, and the
/// same answers on whether the plugin is a master file or a light master.
/// After a reading of the header alone the plugin holds the header record
/// and no form ids, so that it overrides nothing and overlaps with nothing.
pub proof fn lemma_header_alone_answers(plugin: PluginView, input: Seq<u8>)
    ensures
        plugin.parsed(input, false) is Ok ==> plugin.parsed(input, true) is Ok,
        plugin.parsed(input, true) matches Ok(light) ==> {
            &&& light.data is Some
            &&& light.filename == plugin.filename
            &&& light.form_ids() == Seq::<(FormIdView, bool)>::empty()
            &&& light.count_override_records() == 0
            &&& forall|other: PluginView| !light.overlaps_with(other)
        },
        plugin.parsed(input, true) matches Ok(light) ==> (plugin.parsed(
            input,
            false,
        ) matches Ok(full) ==> {
            &&& light.masters() == full.masters()
            &&& light.description() == full.description()
            &&& light.header_version_bits() == full.header_version_bits()
            &&& light.record_and_group_count() == full.record_and_group_count()
            &&& light.overridden_form_ids() == full.overridden_form_ids()
            &&& light.filename == full.filename
            &&& light.is_master_file() == full.is_master_file()
            &&& light.is_light_master_file() == full.is_light_master_file()
        }),
{
}

/// Reading the same input again, in the same way, changes nothing.
pub proof fn lemma_reading_again_changes_nothing(
    plugin: PluginView,
    input: Seq<u8>,
    header_only: bool,
)
    ensures
        plugin.parsed(input, header_only) matches Ok(read) ==> read.parsed(input, header_only)
            == Ok::<PluginView, ErrorKind>(read),
{
}

/// Overlapping does not depend on which plugin is asked, and a plugin that
/// holds a form id overlaps with itself.
pub proof fn lemma_overlap_symmetric_and_reflexive(plugin: PluginView, other: PluginView)
    ensures
        plugin.overlaps_with(other) == other.overlaps_with(plugin),
        plugin.form_ids().len() > 0 ==> plugin.overlaps_with(plugin),
{
    lemma_common_form_id_symmetric(plugin.form_ids(), other.form_ids());
    if plugin.form_ids().len() > 0 {
        lemma_common_form_id_reflexive(plugin.form_ids());
    }
}

} // verus!
