use esplugin::{Error, ErrorKind, GameId, Plugin};

fn le32(value: u32) -> [u8; 4] {
    value.to_le_bytes()
}

fn subrecord(kind: &str, payload: &[u8]) -> Vec<u8> {
    let mut bytes = kind.as_bytes().to_vec();
    bytes.extend_from_slice(&(payload.len() as u16).to_le_bytes());
    bytes.extend_from_slice(payload);
    bytes
}

fn morrowind_subrecord(kind: &str, payload: &[u8]) -> Vec<u8> {
    let mut bytes = kind.as_bytes().to_vec();
    bytes.extend_from_slice(&le32(payload.len() as u32));
    bytes.extend_from_slice(payload);
    bytes
}

fn record(kind: &str, flags: u32, form_id: u32, subrecords: &[u8]) -> Vec<u8> {
    let mut bytes = kind.as_bytes().to_vec();
    bytes.extend_from_slice(&le32(subrecords.len() as u32));
    bytes.extend_from_slice(&le32(flags));
    bytes.extend_from_slice(&le32(form_id));
    bytes.extend_from_slice(&[0, 0, 0, 0, 0x28, 0, 0, 0]);
    bytes.extend_from_slice(subrecords);
    bytes
}

fn morrowind_record(kind: &str, flags: u32, subrecords: &[u8]) -> Vec<u8> {
    let mut bytes = kind.as_bytes().to_vec();
    bytes.extend_from_slice(&le32(subrecords.len() as u32));
    bytes.extend_from_slice(&[0, 0, 0, 0]);
    bytes.extend_from_slice(&le32(flags));
    bytes.extend_from_slice(subrecords);
    bytes
}

fn group(label: &str, body: &[u8]) -> Vec<u8> {
    let mut bytes = b"GRUP".to_vec();
    bytes.extend_from_slice(&le32(body.len() as u32 + 24));
    bytes.extend_from_slice(label.as_bytes());
    bytes.extend_from_slice(&[0; 12]);
    bytes.extend_from_slice(body);
    bytes
}

fn hedr(count: u32, version: f32) -> Vec<u8> {
    let mut payload = le32(count).to_vec();
    payload.extend_from_slice(&version.to_le_bytes());
    payload.extend_from_slice(&le32(0x800));
    subrecord("HEDR", &payload)
}

/// A header record of the games after Morrowind, with the given flags,
/// masters, and the description "A test plugin".
fn header(flags: u32, masters: &[&str]) -> Vec<u8> {
    let mut subrecords = hedr(5, 0.94);
    subrecords.extend(subrecord("CNAM", b"tester\0"));
    subrecords.extend(subrecord("SNAM", b"A test plugin\0"));
    for master in masters {
        let mut name = master.as_bytes().to_vec();
        name.push(0);
        subrecords.extend(subrecord("MAST", &name));
        subrecords.extend(subrecord("DATA", &[0; 8]));
    }
    record("TES4", flags, 0, &subrecords)
}

fn simple_record(form_id: u32) -> Vec<u8> {
    record("WEAP", 0, form_id, &subrecord("EDID", b"Sword\0"))
}

/// A plugin of the games after Morrowind: the header, then one group for
/// all the records.
fn plugin_bytes(flags: u32, masters: &[&str], form_ids: &[u32]) -> Vec<u8> {
    let mut body: Vec<u8> = Vec::new();
    for form_id in form_ids {
        body.extend(simple_record(*form_id));
    }
    let mut bytes = header(flags, masters);
    if !form_ids.is_empty() {
        bytes.extend(group("WEAP", &body));
    }
    bytes
}

/// A plugin with two masters and five records, one of them in a group
/// within a group. Three of the records override records of the masters.
fn nested_plugin_bytes() -> Vec<u8> {
    let mut weapons = simple_record(0x0000_0CEC);
    weapons.extend(simple_record(0x0100_0CED));
    weapons.extend(simple_record(0x0200_0CEE));
    weapons.extend(group("CELL", &simple_record(0x0200_0CEF)));
    let mut bytes = header(0, &["Blank.esm", "Blank - Different.esm"]);
    bytes.extend(group("WEAP", &weapons));
    bytes.extend(group("ARMO", &simple_record(0x0000_0CF0)));
    bytes
}

fn parsed(game_id: GameId, path: &str, bytes: &[u8], header_only: bool) -> Plugin {
    let mut plugin = Plugin::new(game_id, path);
    plugin.parse(bytes, header_only).unwrap();
    plugin
}

#[test]
fn new_should_hold_the_game_and_the_path_and_nothing_read() {
    let plugin = Plugin::new(GameId::Skyrim, "Data/Blank.esp");

    assert_eq!(GameId::Skyrim, plugin.game_id());
    assert_eq!("Data/Blank.esp", plugin.path());
    assert_eq!(Some("Blank.esp".to_string()), plugin.filename());
    assert!(plugin.header_record().is_none());
    assert!(plugin.masters().is_empty());
    assert_eq!(None, plugin.description());
    assert_eq!(None, plugin.header_version_bits());
    assert_eq!(None, plugin.record_and_group_count());
    assert!(plugin.overridden_form_ids().is_empty());
    assert!(!plugin.is_master_file());
    assert!(!plugin.is_light_master_file());
    assert_eq!(0, plugin.count_override_records());
    assert!(!plugin.overlaps_with(&plugin));
}

#[test]
fn with_filename_should_take_the_name_as_given() {
    let plugin = Plugin::with_filename(GameId::Oblivion, "a/b", Some("c.esm".to_string()));
    assert_eq!("a/b", plugin.path());
    assert_eq!(Some("c.esm".to_string()), plugin.filename());
    assert!(plugin.is_master_file());

    let plugin = Plugin::with_filename(GameId::Oblivion, "a/b", None);
    assert_eq!(None, plugin.filename());
}

#[test]
fn parse_should_read_the_header_alone_if_asked_to() {
    let bytes = nested_plugin_bytes();
    let plugin = parsed(GameId::Skyrim, "Data/Plugin.esp", &bytes, true);

    assert_eq!(vec!["Blank.esm", "Blank - Different.esm"], plugin.masters());
    assert_eq!(Some("A test plugin".to_string()), plugin.description());
    assert_eq!(Some(0.94f32), plugin.header_version_bits().map(f32::from_bits));
    assert_eq!(Some(0.94f32.to_bits()), plugin.header_version_bits());
    assert_eq!(Some(5), plugin.record_and_group_count());
    assert_eq!(Some("Plugin.esp".to_string()), plugin.filename());
    assert!(!plugin.is_master_file());
    assert!(!plugin.is_light_master_file());
    assert_eq!(0, plugin.count_override_records());
    assert!(!plugin.overlaps_with(&plugin));

    let header_record = plugin.header_record().unwrap();
    assert_eq!("TES4", header_record.header().record_type());
    assert_eq!(7, header_record.subrecords().len());
}

#[test]
fn parse_should_read_the_header_alone_from_the_header_alone() {
    let bytes = header(1, &["Blank.esm"]);
    let plugin = parsed(GameId::Fallout3, "Plugin.esp", &bytes, true);

    assert_eq!(vec!["Blank.esm"], plugin.masters());
    assert!(plugin.is_master_file());
}

#[test]
fn parse_should_give_the_same_header_answers_with_and_without_the_body() {
    let bytes = nested_plugin_bytes();
    let light = parsed(GameId::Skyrim, "Data/Plugin.esp", &bytes, true);
    let full = parsed(GameId::Skyrim, "Data/Plugin.esp", &bytes, false);

    assert_eq!(light.masters(), full.masters());
    assert_eq!(light.description(), full.description());
    assert_eq!(light.header_version_bits(), full.header_version_bits());
    assert_eq!(light.record_and_group_count(), full.record_and_group_count());
    assert_eq!(light.filename(), full.filename());
    assert_eq!(light.is_master_file(), full.is_master_file());
    assert_eq!(light.is_light_master_file(), full.is_light_master_file());
    assert_eq!(light.overridden_form_ids(), full.overridden_form_ids());
}

#[test]
fn count_override_records_should_count_the_records_of_masters() {
    let bytes = nested_plugin_bytes();
    let plugin = parsed(GameId::Skyrim, "Data/Plugin.esp", &bytes, false);

    assert_eq!(3, plugin.count_override_records());

    let bytes = plugin_bytes(0, &[], &[0x0000_0CEC, 0x0100_0CED, 0xFF00_0001]);
    let plugin = parsed(GameId::Skyrim, "Data/Plugin.esp", &bytes, false);
    assert_eq!(0, plugin.count_override_records());

    let bytes = plugin_bytes(0, &["Blank.esm"], &[0x0000_0CEC, 0x0000_0CEC, 0x0100_0CED]);
    let plugin = parsed(GameId::Skyrim, "Data/Plugin.esp", &bytes, false);
    assert_eq!(2, plugin.count_override_records());

    let bytes = plugin_bytes(0, &["Blank.esm"], &[]);
    let plugin = parsed(GameId::Skyrim, "Data/Plugin.esp", &bytes, false);
    assert_eq!(0, plugin.count_override_records());
}

#[test]
fn overlaps_with_should_find_a_record_that_both_plugins_hold() {
    let first = plugin_bytes(0, &["Blank.esm"], &[0x0000_0CEC, 0x0100_0001]);
    let second = plugin_bytes(0, &["Other.esm", "BLANK.ESM"], &[0x0200_0AAA, 0x0100_0CEC]);
    let third = plugin_bytes(0, &["Blank.esm"], &[0x0000_0CED, 0x0100_0001]);

    let first = parsed(GameId::Skyrim, "First.esp", &first, false);
    let second = parsed(GameId::Skyrim, "Second.esp", &second, false);
    let third = parsed(GameId::Skyrim, "Third.esp", &third, false);

    // Blank.esm's record 0xCEC is in the first and in the second.
    assert!(first.overlaps_with(&second));
    assert!(second.overlaps_with(&first));
    // The first and the third have the same raw form ids for their own
    // records, which are not the same records.
    assert!(!first.overlaps_with(&third));
    assert!(!third.overlaps_with(&first));
    assert!(!second.overlaps_with(&third));

    assert!(first.overlaps_with(&first));
    assert!(second.overlaps_with(&second));
    assert!(third.overlaps_with(&third));
}

#[test]
fn overlaps_with_should_take_a_plugin_and_its_master_for_the_same_plugin() {
    let master = plugin_bytes(1, &[], &[0x0000_0CEC, 0x0000_0CED]);
    let dependent = plugin_bytes(0, &["blank.ESM"], &[0x0100_0001, 0x0000_0CED]);
    let stranger = plugin_bytes(0, &["Blank.esm"], &[0x0100_0CEC, 0x0100_0CED]);

    let master = parsed(GameId::Skyrim, "Data/Blank.esm", &master, false);
    let dependent = parsed(GameId::Skyrim, "Data/Dependent.esp", &dependent, false);
    let stranger = parsed(GameId::Skyrim, "Data/Stranger.esp", &stranger, false);

    assert!(master.overlaps_with(&dependent));
    assert!(dependent.overlaps_with(&master));
    assert!(!master.overlaps_with(&stranger));
    assert!(!stranger.overlaps_with(&dependent));
}

#[test]
fn overlaps_with_should_find_the_one_common_record_among_many() {
    let mut ours: Vec<u32> = Vec::new();
    let mut theirs: Vec<u32> = Vec::new();
    let mut i: u32 = 0;
    while i < 500 {
        // Odd and even object indices, in an order that is not sorted.
        ours.push(((i * 7919) % 1000) * 2 + 1);
        theirs.push(((i * 104729) % 1000) * 2);
        i += 1;
    }
    let first = plugin_bytes(0, &["Blank.esm"], &ours);
    let second = plugin_bytes(0, &["Blank.esm"], &theirs);
    let first = parsed(GameId::Fallout4, "First.esp", &first, false);
    let second = parsed(GameId::Fallout4, "Second.esp", &second, false);
    assert_eq!(500, first.count_override_records());
    assert!(!first.overlaps_with(&second));
    assert!(!second.overlaps_with(&first));

    theirs[250] = ours[499];
    let second = plugin_bytes(0, &["Blank.esm"], &theirs);
    let second = parsed(GameId::Fallout4, "Second.esp", &second, false);
    assert!(first.overlaps_with(&second));
    assert!(second.overlaps_with(&first));
}

#[test]
fn overlaps_with_should_find_nothing_without_form_ids() {
    let bytes = nested_plugin_bytes();
    let light = parsed(GameId::Skyrim, "Data/Plugin.esp", &bytes, true);
    let full = parsed(GameId::Skyrim, "Data/Plugin.esp", &bytes, false);

    assert!(full.overlaps_with(&full));
    assert!(!light.overlaps_with(&full));
    assert!(!full.overlaps_with(&light));
}

#[test]
fn is_master_file_should_go_by_the_flag_and_the_extension() {
    let flagged = header(1, &[]);
    let plain = header(0, &[]);

    assert!(parsed(GameId::Skyrim, "Blank.esp", &flagged, true).is_master_file());
    assert!(!parsed(GameId::Skyrim, "Blank.esp", &plain, true).is_master_file());
    assert!(parsed(GameId::Skyrim, "Blank.esm", &plain, true).is_master_file());
    assert!(!parsed(GameId::Skyrim, "Blank.esl", &plain, true).is_master_file());
    assert!(parsed(GameId::SkyrimSE, "Blank.esl", &plain, true).is_master_file());
    assert!(parsed(GameId::Fallout4, "Blank.esl", &plain, true).is_master_file());
    assert!(parsed(GameId::Fallout4VR, "Blank.esl", &plain, true).is_master_file());
    assert!(!parsed(GameId::SkyrimVR, "Blank.esl", &plain, true).is_master_file());
    assert!(!parsed(GameId::Skyrim, "Blank.ESM", &plain, true).is_master_file());
    assert!(!parsed(GameId::Skyrim, ".esm", &plain, true).is_master_file());
    assert!(!parsed(GameId::Skyrim, "esm", &plain, true).is_master_file());
    assert!(!parsed(GameId::Skyrim, "Blank.esm.ghost", &plain, true).is_master_file());

    let morrowind = morrowind_record("TES3", 1, &morrowind_subrecord("HEDR", &[0; 300]));
    assert!(parsed(GameId::Morrowind, "Blank.esm", &morrowind, true).is_master_file());
    assert!(!parsed(GameId::Morrowind, "Blank.esp", &morrowind, true).is_master_file());
}

#[test]
fn is_light_master_file_should_go_by_the_game_the_flag_and_the_extension() {
    let flagged = header(0x200, &[]);
    let plain = header(0x1, &[]);

    assert!(parsed(GameId::SkyrimSE, "Blank.esp", &flagged, true).is_light_master_file());
    assert!(parsed(GameId::Fallout4, "Blank.esp", &flagged, true).is_light_master_file());
    assert!(parsed(GameId::Fallout4VR, "Blank.esp", &flagged, true).is_light_master_file());
    assert!(parsed(GameId::SkyrimSE, "Blank.esl", &plain, true).is_light_master_file());
    assert!(!parsed(GameId::SkyrimSE, "Blank.esm", &plain, true).is_light_master_file());
    assert!(!parsed(GameId::Skyrim, "Blank.esl", &flagged, true).is_light_master_file());
    assert!(!parsed(GameId::SkyrimVR, "Blank.esl", &flagged, true).is_light_master_file());
    assert!(!parsed(GameId::FalloutNV, "Blank.esl", &flagged, true).is_light_master_file());
    assert!(Plugin::new(GameId::SkyrimSE, "Blank.esl").is_light_master_file());
}

#[test]
fn is_valid_as_light_master_should_hold_the_own_records_to_the_range() {
    let within = plugin_bytes(0, &["Blank.esm"], &[0x0100_0800, 0x0100_0FFF, 0x0000_0001]);
    let below = plugin_bytes(0, &["Blank.esm"], &[0x0100_0800, 0x0100_07FF]);
    let above = plugin_bytes(0, &["Blank.esm"], &[0x0100_1000]);

    assert!(parsed(GameId::SkyrimSE, "Blank.esp", &within, false).is_valid_as_light_master());
    assert!(parsed(GameId::Fallout4, "Blank.esp", &within, false).is_valid_as_light_master());
    assert!(parsed(GameId::Fallout4VR, "Blank.esp", &within, false).is_valid_as_light_master());
    assert!(!parsed(GameId::Skyrim, "Blank.esp", &within, false).is_valid_as_light_master());
    assert!(!parsed(GameId::SkyrimVR, "Blank.esp", &within, false).is_valid_as_light_master());
    assert!(!parsed(GameId::SkyrimSE, "Blank.esp", &below, false).is_valid_as_light_master());
    assert!(!parsed(GameId::SkyrimSE, "Blank.esp", &above, false).is_valid_as_light_master());
    assert!(parsed(GameId::SkyrimSE, "Blank.esp", &below, true).is_valid_as_light_master());
    assert!(Plugin::new(GameId::SkyrimSE, "Blank.esp").is_valid_as_light_master());
    assert!(!Plugin::new(GameId::Morrowind, "Blank.esp").is_valid_as_light_master());
}

#[test]
fn is_valid_should_hold_if_the_parse_succeeds() {
    let bytes = nested_plugin_bytes();

    assert!(Plugin::is_valid(GameId::Skyrim, "Data/Plugin.esp", &bytes, true));
    assert!(Plugin::is_valid(GameId::Skyrim, "Data/Plugin.esp", &bytes, false));
    assert!(Plugin::new(GameId::Skyrim, "Data/Plugin.esp").parse(&bytes, true).is_ok());
    assert!(Plugin::new(GameId::Skyrim, "Data/Plugin.esp").parse(&bytes, false).is_ok());

    // The body is cut: the header can still be read.
    let cut = &bytes[..bytes.len() - 1];
    assert!(Plugin::is_valid(GameId::Skyrim, "Data/Plugin.esp", cut, true));
    assert!(!Plugin::is_valid(GameId::Skyrim, "Data/Plugin.esp", cut, false));
    assert!(Plugin::new(GameId::Skyrim, "Data/Plugin.esp").parse(cut, true).is_ok());
    assert!(Plugin::new(GameId::Skyrim, "Data/Plugin.esp").parse(cut, false).is_err());

    // Not a plugin of Morrowind, not a plugin at all, and no file name.
    assert!(!Plugin::is_valid(GameId::Morrowind, "Data/Plugin.esp", &bytes, true));
    assert!(Plugin::new(GameId::Morrowind, "Data/Plugin.esp").parse(&bytes, true).is_err());
    assert!(!Plugin::is_valid(GameId::Skyrim, "Data/Plugin.esp", b"This is no plugin.", true));
    assert!(!Plugin::is_valid(GameId::Skyrim, "Data/Plugin.esp", b"", true));
    assert!(!Plugin::is_valid(GameId::Skyrim, "", &bytes, true));
    assert!(Plugin::new(GameId::Skyrim, "").parse(&bytes, true).is_err());

    let plugin = Plugin::new(GameId::Skyrim, "Data/Plugin.esp");
    assert!(plugin.accepts(&bytes, false));
    assert!(!plugin.accepts(cut, false));
    assert!(plugin.header_record().is_none());
}

#[test]
fn parse_should_fail_without_a_filename() {
    let bytes = nested_plugin_bytes();

    let mut plugin = Plugin::new(GameId::Skyrim, "");
    assert_eq!(None, plugin.filename());
    assert!(matches!(plugin.parse(&bytes, true), Err(Error::NoFilename)));

    let mut plugin = Plugin::new(GameId::Skyrim, "Data/..");
    assert!(matches!(plugin.parse(&bytes, true), Err(Error::NoFilename)));

    let mut plugin = Plugin::with_filename(GameId::Skyrim, "Data/Plugin.esp", None);
    assert_eq!(ErrorKind::NoFilename, plugin.parse(&bytes, false).unwrap_err().kind());
    assert!(!plugin.accepts(&bytes, false));
}

#[test]
fn parse_should_refuse_a_header_of_another_type() {
    let bytes = nested_plugin_bytes();
    let mut plugin = Plugin::new(GameId::Skyrim, "Plugin.esp");

    let mut other = bytes.clone();
    other[3] = b'3';
    assert!(matches!(plugin.parse(&other, true), Err(Error::ParsingError(_))));
    assert!(matches!(plugin.parse(&other, false), Err(Error::ParsingError(_))));
    assert!(matches!(plugin.parse(&bytes[..30], true), Err(Error::ParsingIncomplete)));
    assert!(matches!(plugin.parse(&[], true), Err(Error::ParsingIncomplete)));
}

#[test]
fn parse_should_refuse_a_body_that_is_not_made_of_groups() {
    let mut plugin = Plugin::new(GameId::Skyrim, "Plugin.esp");

    // A record at the top level.
    let mut bytes = header(0, &[]);
    bytes.extend(simple_record(1));
    assert!(plugin.parse(&bytes, true).is_ok());
    assert!(matches!(plugin.parse(&bytes, false), Err(Error::ParsingError(_))));

    // A group that says it is smaller than its header.
    let mut bytes = header(0, &[]);
    let mut small = group("WEAP", &[]);
    small[4] = 23;
    bytes.extend(small);
    assert!(matches!(plugin.parse(&bytes, false), Err(Error::ParsingError(_))));

    // A group that is cut, and one whose last record is cut.
    let mut bytes = header(0, &[]);
    bytes.extend(group("WEAP", &simple_record(1)));
    let cut = &bytes[..bytes.len() - 1];
    assert!(matches!(plugin.parse(cut, false), Err(Error::ParsingIncomplete)));
    let mut bytes = header(0, &[]);
    let record = simple_record(1);
    bytes.extend(group("WEAP", &record[..record.len() - 1]));
    assert!(matches!(plugin.parse(&bytes, false), Err(Error::ParsingIncomplete)));
    let mut bytes = header(0, &[]);
    bytes.extend_from_slice(b"GRU");
    assert!(matches!(plugin.parse(&bytes, false), Err(Error::ParsingIncomplete)));

    // An empty group holds no records.
    let mut bytes = header(0, &[]);
    bytes.extend(group("WEAP", &[]));
    assert!(plugin.parse(&bytes, false).is_ok());
    assert!(!plugin.overlaps_with(&plugin));
}

#[test]
fn parse_should_leave_the_plugin_as_it_was_if_it_fails() {
    let bytes = nested_plugin_bytes();
    let mut plugin = parsed(GameId::Skyrim, "Data/Plugin.esp", &bytes, false);

    assert!(plugin.parse(&bytes[..bytes.len() - 1], false).is_err());
    assert!(plugin.parse(b"TES4", true).is_err());

    assert_eq!(vec!["Blank.esm", "Blank - Different.esm"], plugin.masters());
    assert_eq!(3, plugin.count_override_records());
    assert!(plugin.overlaps_with(&plugin));
}

#[test]
fn parse_should_replace_what_was_read_before() {
    let bytes = nested_plugin_bytes();
    let mut plugin = parsed(GameId::Skyrim, "Data/Plugin.esp", &bytes, false);
    assert_eq!(3, plugin.count_override_records());

    plugin.parse(&bytes, true).unwrap();
    assert_eq!(0, plugin.count_override_records());
    assert_eq!(vec!["Blank.esm", "Blank - Different.esm"], plugin.masters());

    let other = plugin_bytes(1, &["Other.esm"], &[0x0000_0001]);
    plugin.parse(&other, false).unwrap();
    assert_eq!(vec!["Other.esm"], plugin.masters());
    assert_eq!(1, plugin.count_override_records());
    assert!(plugin.is_master_file());
}

#[test]
fn parse_should_give_the_same_twice() {
    let bytes = nested_plugin_bytes();
    let first = parsed(GameId::Skyrim, "Data/Plugin.esp", &bytes, false);
    let mut plugin = parsed(GameId::Skyrim, "Data/Plugin.esp", &bytes, false);

    plugin.parse(&bytes, false).unwrap();

    assert_eq!(first.masters(), plugin.masters());
    assert_eq!(first.description(), plugin.description());
    assert_eq!(first.header_version_bits(), plugin.header_version_bits());
    assert_eq!(first.count_override_records(), plugin.count_override_records());
    assert_eq!(first.header_record(), plugin.header_record());
    assert!(first.overlaps_with(&plugin));
}

#[test]
fn masters_and_description_should_be_decoded_from_windows_1252() {
    let mut subrecords = hedr(0, 1.0);
    subrecords.extend(subrecord("MAST", b"Caf\xE9 \x80.esm\0"));
    subrecords.extend(subrecord("SNAM", b"\x93quoted\x94 \x8A\x9Fz\0 and more"));
    let bytes = record("TES4", 0, 0, &subrecords);
    let plugin = parsed(GameId::Skyrim, "Plugin.esp", &bytes, true);

    assert_eq!(vec!["Caf\u{E9} \u{20AC}.esm"], plugin.masters());
    assert_eq!(
        Some("\u{201C}quoted\u{201D} \u{160}\u{178}z".to_string()),
        plugin.description()
    );
}

#[test]
fn masters_and_description_should_end_with_their_bytes_without_a_nul() {
    let mut subrecords = subrecord("MAST", b"Blank.esm");
    subrecords.extend(subrecord("MAST", b"\0Blank.esm"));
    subrecords.extend(subrecord("SNAM", b""));
    subrecords.extend(subrecord("SNAM", b"second\0"));
    let bytes = record("TES4", 0, 0, &subrecords);
    let plugin = parsed(GameId::Skyrim, "Plugin.esp", &bytes, true);

    assert_eq!(vec!["Blank.esm", ""], plugin.masters());
    assert_eq!(Some("".to_string()), plugin.description());
    assert_eq!(None, plugin.header_version_bits());
    assert_eq!(None, plugin.record_and_group_count());
}

#[test]
fn parse_should_refuse_bytes_that_windows_1252_does_not_define() {
    let mut plugin = Plugin::new(GameId::Skyrim, "Plugin.esp");

    for undefined in [0x81u8, 0x8D, 0x8F, 0x90, 0x9D] {
        let name = [b'a', undefined, b'.', b'e', b's', b'm', 0];
        let bytes = record("TES4", 0, 0, &subrecord("MAST", &name));
        assert!(matches!(plugin.parse(&bytes, true), Err(Error::DecodeError(_))));

        let bytes = record("TES4", 0, 0, &subrecord("SNAM", &name));
        let refused = plugin.parse(&bytes, false);
        assert_eq!(ErrorKind::DecodeError, refused.unwrap_err().kind());

        // Behind the NUL the byte is not read.
        let name = [b'a', 0, undefined];
        let bytes = record("TES4", 0, 0, &subrecord("MAST", &name));
        assert!(plugin.parse(&bytes, true).is_ok());
        assert_eq!(vec!["a"], plugin.masters());
    }
    assert!(plugin.header_record().is_some());
}

#[test]
fn header_numbers_should_need_their_four_bytes() {
    let bytes = record("TES4", 0, 0, &subrecord("HEDR", &[1, 2, 3, 4, 5, 6, 7]));
    let plugin = parsed(GameId::Skyrim, "Plugin.esp", &bytes, true);
    assert_eq!(Some(0x0403_0201), plugin.record_and_group_count());
    assert_eq!(None, plugin.header_version_bits());

    let bytes = record("TES4", 0, 0, &subrecord("HEDR", &[1, 2, 3]));
    let plugin = parsed(GameId::Skyrim, "Plugin.esp", &bytes, true);
    assert_eq!(None, plugin.record_and_group_count());

    let bytes = record("TES4", 0, 0, &subrecord("HEDR", &[1, 2, 3, 4, 5, 6, 7, 8]));
    let plugin = parsed(GameId::Skyrim, "Plugin.esp", &bytes, true);
    assert_eq!(Some(0x0807_0605), plugin.header_version_bits());
}

#[test]
fn overridden_form_ids_should_be_read_from_the_header() {
    let mut subrecords = hedr(0, 1.0);
    subrecords.extend(subrecord("ONAM", &[0xEC, 0x0C, 0, 0, 0xED, 0x0C, 0, 1, 0xFF, 0xFF]));
    let bytes = record("TES4", 1, 0, &subrecords);
    let plugin = parsed(GameId::Skyrim, "Plugin.esm", &bytes, true);

    assert_eq!(vec![0x0000_0CEC, 0x0100_0CED], plugin.overridden_form_ids());
    assert!(parsed(GameId::Skyrim, "Plugin.esm", &header(1, &[]), true)
        .overridden_form_ids()
        .is_empty());
}

#[test]
fn parse_should_read_the_records_of_morrowind_one_after_the_other() {
    let mut header = morrowind_subrecord("HEDR", &[0; 300]);
    header.extend(morrowind_subrecord("MAST", b"Morrowind.esm\0"));
    header.extend(morrowind_subrecord("DATA", &[0; 8]));
    let mut bytes = morrowind_record("TES3", 0, &header);
    bytes.extend(morrowind_record("GMST", 0, &morrowind_subrecord("NAME", b"sSetting\0")));
    bytes.extend(morrowind_record("GRUP", 0, &[]));
    bytes.extend(morrowind_record("CELL", 0, &morrowind_subrecord("NAME", b"Somewhere\0")));

    let mut plugin = Plugin::new(GameId::Morrowind, "Data Files/Blank.esp");
    plugin.parse(&bytes, false).unwrap();
    assert_eq!(vec!["Morrowind.esm"], plugin.masters());
    // Morrowind's records have no form id: each counts as the record 0 of
    // the first master.
    assert_eq!(3, plugin.count_override_records());
    assert!(plugin.overlaps_with(&plugin));

    assert!(matches!(
        plugin.parse(&bytes[..bytes.len() - 1], false),
        Err(Error::ParsingIncomplete)
    ));
}

#[test]
fn parse_should_walk_the_groups_of_oblivion_behind_its_shorter_headers() {
    let mut header = b"TES4".to_vec();
    let subrecords = subrecord("MAST", b"Oblivion.esm\0");
    header.extend_from_slice(&le32(subrecords.len() as u32));
    header.extend_from_slice(&le32(0));
    header.extend_from_slice(&le32(0));
    header.extend_from_slice(&[0; 4]);
    header.extend(subrecords);

    let mut weapon = b"WEAP".to_vec();
    weapon.extend_from_slice(&le32(0));
    weapon.extend_from_slice(&le32(0));
    weapon.extend_from_slice(&le32(0x0000_0CEC));
    weapon.extend_from_slice(&[0; 4]);

    let mut bytes = header;
    bytes.extend(group("WEAP", &weapon));

    let plugin = parsed(GameId::Oblivion, "Plugin.esp", &bytes, false);
    assert_eq!(vec!["Oblivion.esm"], plugin.masters());
    assert_eq!(1, plugin.count_override_records());
}
