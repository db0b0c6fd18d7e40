use esplugin::bytes::{bytes_equal, le_u32_in, read_le_u16, read_le_u32};
use esplugin::path::filename_has_extension;
use esplugin::text::{decode_nul_terminated, has_type, is_defined_in_windows_1252, until_nul};
use esplugin::ByteReader;

#[test]
fn read_le_u32_should_take_the_least_significant_byte_first() {
    let bytes = [0xFF, 0x78, 0x56, 0x34, 0x12, 0xFF];

    assert_eq!(0x1234_5678, read_le_u32(&bytes, 1));
    assert_eq!(0x3456_78FF, read_le_u32(&bytes, 0));
    assert_eq!(0xFF12_3456, read_le_u32(&bytes, 2));
    assert_eq!(u32::MAX, read_le_u32(&[0xFF; 4], 0));
    assert_eq!(0, read_le_u32(&[0; 4], 0));
    assert_eq!(0x0100_0000, read_le_u32(&[0, 0, 0, 1], 0));
}

#[test]
fn read_le_u16_should_take_the_least_significant_byte_first() {
    let bytes = [0xFF, 0x34, 0x12];

    assert_eq!(0x1234, read_le_u16(&bytes, 1));
    assert_eq!(0x34FF, read_le_u16(&bytes, 0));
    assert_eq!(u16::MAX, read_le_u16(&[0xFF; 2], 0));
}

#[test]
fn le_u32_in_should_read_where_four_bytes_are_left() {
    let bytes = [0xFF, 0x78, 0x56, 0x34, 0x12];

    assert_eq!(Some(0x1234_5678), le_u32_in(&bytes, 1));
    assert_eq!(Some(0x3456_78FF), le_u32_in(&bytes, 0));
    assert_eq!(None, le_u32_in(&bytes, 2));
    assert_eq!(None, le_u32_in(&bytes, 5));
    assert_eq!(None, le_u32_in(&bytes, usize::MAX));
    assert_eq!(None, le_u32_in(&bytes[..3], 0));
    assert_eq!(None, le_u32_in(&[], 0));
}

#[test]
fn bytes_equal_should_compare_length_and_content() {
    assert!(bytes_equal(b"TES4", b"TES4"));
    assert!(bytes_equal(b"", b""));
    assert!(!bytes_equal(b"TES4", b"TES3"));
    assert!(!bytes_equal(b"TES4", b"TES"));
    assert!(!bytes_equal(b"TES", b"TES4"));
    assert!(!bytes_equal(b"AES4", b"TES4"));
}

#[test]
fn has_type_should_compare_the_letters() {
    assert!(has_type("HEDR", b"HEDR"));
    assert!(!has_type("HEDR", b"HEDS"));
    assert!(!has_type("hedr", b"HEDR"));
    assert!(!has_type("HED", b"HEDR"));
    assert!(!has_type("", b"HEDR"));
}

#[test]
fn until_nul_should_end_before_the_first_nul() {
    assert_eq!(b"Blank.esm", until_nul(b"Blank.esm\0"));
    assert_eq!(b"Blank", until_nul(b"Blank\0esm\0"));
    assert_eq!(b"Blank.esm", until_nul(b"Blank.esm"));
    assert_eq!(b"", until_nul(b"\0Blank.esm"));
    assert_eq!(b"", until_nul(b""));
}

#[test]
fn is_defined_in_windows_1252_should_know_the_five_bytes_without_a_character() {
    let mut byte: u8 = 0;
    loop {
        let undefined = [0x81, 0x8D, 0x8F, 0x90, 0x9D].contains(&byte);
        assert_eq!(!undefined, is_defined_in_windows_1252(&[b'a', byte, b'z']));
        if byte == u8::MAX {
            break;
        }
        byte += 1;
    }
    assert!(is_defined_in_windows_1252(b""));
}

#[test]
fn decode_nul_terminated_should_read_windows_1252() {
    assert_eq!(Ok("Blank.esm".to_string()), decode_nul_terminated(b"Blank.esm\0"));
    assert_eq!(Ok("".to_string()), decode_nul_terminated(b""));
    assert_eq!(
        Ok("\u{20AC}\u{201A}\u{192}\u{2026}\u{2122}\u{FF}\u{A0}".to_string()),
        decode_nul_terminated(b"\x80\x82\x83\x85\x99\xFF\xA0\0\x81")
    );
    assert!(decode_nul_terminated(b"\x81\0").is_err());
    assert!(decode_nul_terminated(b"a\x9D").is_err());
}

#[test]
fn filename_has_extension_should_look_behind_the_last_dot() {
    assert!(filename_has_extension("Blank.esm", b"esm"));
    assert!(filename_has_extension("Blank.esp.esm", b"esm"));
    assert!(filename_has_extension("..esm", b"esm"));
    assert!(filename_has_extension("Caf\u{E9}.esm", b"esm"));
    assert!(!filename_has_extension("Blank.esm", b"esl"));
    assert!(!filename_has_extension("Blank.esm.esp", b"esm"));
    assert!(!filename_has_extension("Blank.ESM", b"esm"));
    assert!(!filename_has_extension("Blankesm", b"esm"));
    assert!(!filename_has_extension(".esm", b"esm"));
    assert!(!filename_has_extension("esm", b"esm"));
    assert!(!filename_has_extension("", b"esm"));
    assert!(!filename_has_extension("Blank.esm ", b"esm"));
}

#[test]
fn byte_reader_should_read_from_front_to_back() {
    let mut reader = ByteReader::new(vec![1, 2, 3, 4, 5]);
    assert_eq!(0, reader.position());

    assert_eq!(vec![1, 2], reader.read_exact(2).unwrap());
    assert_eq!(2, reader.position());
    assert_eq!(Vec::<u8>::new(), reader.read_exact(0).unwrap());
    assert_eq!(vec![3, 4, 5], reader.read_exact(3).unwrap());
    assert_eq!(5, reader.position());
    assert_eq!(Vec::<u8>::new(), reader.read_exact(0).unwrap());
    assert!(reader.read_exact(1).is_err());
    assert_eq!(5, reader.position());
}

#[test]
fn byte_reader_should_stand_at_its_end_after_a_read_that_failed() {
    let mut reader = ByteReader::new(vec![1, 2, 3, 4, 5]);
    assert_eq!(vec![1], reader.read_exact(1).unwrap());

    let failed = reader.read_exact(5);
    assert_eq!(
        std::io::ErrorKind::UnexpectedEof,
        failed.unwrap_err().cause().unwrap().kind()
    );
    assert_eq!(5, reader.position());
    assert!(reader.read_exact(usize::MAX).is_err());
}

#[test]
fn decode_nul_terminated_should_give_each_byte_its_character() {
    let special: [(u8, u32); 27] = [
        (0x80, 0x20AC),
        (0x82, 0x201A),
        (0x83, 0x0192),
        (0x84, 0x201E),
        (0x85, 0x2026),
        (0x86, 0x2020),
        (0x87, 0x2021),
        (0x88, 0x02C6),
        (0x89, 0x2030),
        (0x8A, 0x0160),
        (0x8B, 0x2039),
        (0x8C, 0x0152),
        (0x8E, 0x017D),
        (0x91, 0x2018),
        (0x92, 0x2019),
        (0x93, 0x201C),
        (0x94, 0x201D),
        (0x95, 0x2022),
        (0x96, 0x2013),
        (0x97, 0x2014),
        (0x98, 0x02DC),
        (0x99, 0x2122),
        (0x9A, 0x0161),
        (0x9B, 0x203A),
        (0x9C, 0x0153),
        (0x9E, 0x017E),
        (0x9F, 0x0178),
    ];
    let mut byte: u8 = 1;
    loop {
        let decoded = decode_nul_terminated(&[byte]);
        if [0x81, 0x8D, 0x8F, 0x90, 0x9D].contains(&byte) {
            assert!(decoded.is_err());
        } else {
            let code_point = match special.iter().find(|pair| pair.0 == byte) {
                Some(pair) => pair.1,
                None => byte as u32,
            };
            let expected = char::from_u32(code_point).unwrap().to_string();
            assert_eq!(Ok(expected), decoded);
        }
        if byte == u8::MAX {
            break;
        }
        byte += 1;
    }
}
