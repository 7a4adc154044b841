use hash40::errors::{NumParseError, ParseHashError};
use hash40::label_map::LabelMap;
use hash40::Hash40;

#[test]
fn from_hex_str_parses_zero() {
    assert_eq!(Hash40::from_hex_str("0x0000000000"), Ok(Hash40(0)));
}

#[test]
fn from_hex_str_parses_values() {
    assert_eq!(Hash40::from_hex_str("0x1"), Ok(Hash40(1)));
    assert_eq!(Hash40::from_hex_str("0x00abCDef12"), Ok(Hash40(0x00AB_CDEF_12)));
    assert_eq!(Hash40::from_hex_str("0xffffffffffffffff"), Ok(Hash40(u64::MAX)));
}

#[test]
fn from_hex_str_without_prefix_fails() {
    assert_eq!(Hash40::from_hex_str("nope"), Err(ParseHashError::MissingPrefix));
    assert_eq!(Hash40::from_hex_str(""), Err(ParseHashError::MissingPrefix));
    assert_eq!(Hash40::from_hex_str("0"), Err(ParseHashError::MissingPrefix));
    assert_eq!(Hash40::from_hex_str("1234567890"), Err(ParseHashError::MissingPrefix));
}

#[test]
fn from_hex_str_with_bad_digits_fails() {
    assert_eq!(
        Hash40::from_hex_str("0xZZ"),
        Err(ParseHashError::ParseError(NumParseError::InvalidDigit))
    );
    assert_eq!(
        Hash40::from_hex_str("0x12g4"),
        Err(ParseHashError::ParseError(NumParseError::InvalidDigit))
    );
    // A sign is not a hexadecimal digit.
    assert_eq!(
        Hash40::from_hex_str("0x+5"),
        Err(ParseHashError::ParseError(NumParseError::InvalidDigit))
    );
}

#[test]
fn from_hex_str_with_no_digits_fails() {
    assert_eq!(Hash40::from_hex_str("0x"), Err(ParseHashError::ParseError(NumParseError::Empty)));
}

#[test]
fn from_hex_str_overflow_fails() {
    assert_eq!(
        Hash40::from_hex_str("0x10000000000000000"),
        Err(ParseHashError::ParseError(NumParseError::PosOverflow))
    );
    // The overflow is met scanning left to right, before the bad digit.
    assert_eq!(
        Hash40::from_hex_str("0x11111111111111111z"),
        Err(ParseHashError::ParseError(NumParseError::PosOverflow))
    );
}

#[test]
fn to_label_renders_canonical_hex() {
    let empty = LabelMap::default();
    assert_eq!(Hash40(0x1).to_label(&empty), "0x0000000001");
    assert_eq!(Hash40(0).to_label(&empty), "0x0000000000");
    assert_eq!(Hash40(0xAB_CDEF_0123).to_label(&empty), "0xabcdef0123");
    assert_eq!(Hash40(0xFF_FFFF_FFFF).to_label(&empty), "0xffffffffff");
}

#[test]
fn to_label_masks_metadata_bits() {
    let empty = LabelMap::default();
    // Bits above the 40th are not part of the canonical text form.
    assert_eq!(Hash40((1 << 45) | 1).to_label(&empty), "0x0000000001");
}

#[test]
fn from_hex_str_keeps_full_word() {
    // Parsing does not mask: a numeral above 40 bits keeps its value.
    assert_eq!(Hash40::from_hex_str("0x10000000000"), Ok(Hash40(0x100_0000_0000)));
    // Rendering does mask: only the low 40 bits appear.
    let empty = LabelMap::default();
    assert_eq!(Hash40(0x100_0000_0001).to_label(&empty), "0x0000000001");
}

#[test]
fn accessors_recompose_fresh_hashes() {
    for s in ["", "a", "fighter/mario", "123456789"] {
        let h = hash40::hash40(s);
        assert_eq!((h.crc() as u64) | ((h.str_len() as u64) << 32), h.0);
    }
}

#[test]
fn hex_round_trip_through_text() {
    let empty = LabelMap::default();
    let h = hash40::hash40("fighter/mario");
    let text = h.to_label(&empty);
    assert_eq!(Hash40::from_hex_str(&text), Ok(h));
}
