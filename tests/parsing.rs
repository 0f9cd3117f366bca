use modbus_crc::bench::run;
use modbus_crc::crc::LookupTable;
use modbus_crc::hex::{hex_digit, is_whitespace, parse_hex, remove_whitespace, ParseError};

#[test]
fn spaces_are_ignored() {
    assert_eq!(parse_hex("01 10").unwrap(), vec![0x01, 0x10]);
    assert_eq!(parse_hex("0110").unwrap(), vec![0x01, 0x10]);
    assert_eq!(parse_hex(" 0 1\t1\n0 ").unwrap(), vec![0x01, 0x10]);
    assert_eq!(parse_hex("01\u{A0}10\u{3000}").unwrap(), vec![0x01, 0x10]);
}

#[test]
fn odd_length_is_rejected() {
    assert_eq!(parse_hex("010"), Err(ParseError::OddLength));
    assert_eq!(parse_hex("0 1 0"), Err(ParseError::OddLength));
    assert_eq!(parse_hex("Z"), Err(ParseError::OddLength));
}

#[test]
fn too_long_is_rejected() {
    let over = "ab".repeat(257);
    assert_eq!(over.len(), 514);
    assert_eq!(parse_hex(&over), Err(ParseError::TooLong));
    let odd_over = "a".repeat(515);
    assert_eq!(parse_hex(&odd_over), Err(ParseError::OddLength));
}

#[test]
fn exactly_256_bytes_are_accepted() {
    let full = "ab".repeat(256);
    let bytes = parse_hex(&full).unwrap();
    assert_eq!(bytes.len(), 256);
    assert!(bytes.iter().all(|b| *b == 0xAB));
    let spaced = "ab ".repeat(256);
    assert_eq!(parse_hex(&spaced).unwrap().len(), 256);
}

#[test]
fn non_hex_group_is_rejected() {
    assert_eq!(
        parse_hex("ZZ"),
        Err(ParseError::HexParse { group: ('Z', 'Z'), position: 0 })
    );
    assert_eq!(
        parse_hex("01 G2 ZZ"),
        Err(ParseError::HexParse { group: ('G', '2'), position: 1 })
    );
    assert_eq!(
        parse_hex("+1"),
        Err(ParseError::HexParse { group: ('+', '1'), position: 0 })
    );
    assert_eq!(
        parse_hex("0x"),
        Err(ParseError::HexParse { group: ('0', 'x'), position: 0 })
    );
}

#[test]
fn digits_of_either_case() {
    assert_eq!(parse_hex("c4").unwrap(), vec![0xC4]);
    assert_eq!(parse_hex("C4").unwrap(), vec![0xC4]);
    assert_eq!(parse_hex("aBcD").unwrap(), vec![0xAB, 0xCD]);
}

#[test]
fn empty_text_is_empty_sequence() {
    assert_eq!(parse_hex("").unwrap(), Vec::<u8>::new());
    assert_eq!(parse_hex(" \t\n").unwrap(), Vec::<u8>::new());
}

#[test]
fn known_frame_text_parses() {
    let bytes = parse_hex("01 10 00 11 00 03 06 1A C4 BA D0").unwrap();
    assert_eq!(bytes, vec![0x01, 0x10, 0x00, 0x11, 0x00, 0x03, 0x06, 0x1A, 0xC4, 0xBA, 0xD0]);
}

#[test]
fn hex_digit_values() {
    assert_eq!(hex_digit('0'), Some(0));
    assert_eq!(hex_digit('9'), Some(9));
    assert_eq!(hex_digit('a'), Some(10));
    assert_eq!(hex_digit('F'), Some(15));
    assert_eq!(hex_digit('f'), Some(15));
    assert_eq!(hex_digit('g'), None);
    assert_eq!(hex_digit('G'), None);
    assert_eq!(hex_digit('/'), None);
    assert_eq!(hex_digit(':'), None);
    assert_eq!(hex_digit('@'), None);
    assert_eq!(hex_digit('`'), None);
}

#[test]
fn whitespace_characters() {
    for c in [' ', '\t', '\n', '\r', '\u{0B}', '\u{0C}', '\u{85}', '\u{A0}', '\u{2003}', '\u{3000}'] {
        assert!(is_whitespace(c));
        assert_eq!(is_whitespace(c), c.is_whitespace());
    }
    for c in ['a', '0', '_', '\u{200B}'] {
        assert!(!is_whitespace(c));
        assert_eq!(is_whitespace(c), c.is_whitespace());
    }
    assert_eq!(remove_whitespace(" a b\tc "), vec!['a', 'b', 'c']);
}

#[test]
fn run_reports_each_parse_error() {
    let table = LookupTable::new();
    assert_eq!(run(&table, "010", 1), Err(ParseError::OddLength));
    assert_eq!(run(&table, &"00".repeat(257), 1), Err(ParseError::TooLong));
    assert_eq!(
        run(&table, "ZZ", 1),
        Err(ParseError::HexParse { group: ('Z', 'Z'), position: 0 })
    );
}
