use hash40::{hash40, Hash40};

#[test]
fn hashing_is_deterministic() {
    assert_eq!(hash40("fighter/mario/model/body"), hash40("fighter/mario/model/body"));
    assert_eq!(hash40(""), hash40(""));
}

#[test]
fn empty_string_hash() {
    // CRC-32/CKSUM of no bytes is the inverted zero state; the length byte is zero.
    assert_eq!(hash40("").0, 0x0000_0000_FFFF_FFFF);
}

#[test]
fn known_check_value() {
    // The catalogued check value of the CRC-32/CKSUM variant.
    assert_eq!(hash40("123456789").crc(), 0x765E_7680);
    assert_eq!(hash40("123456789").str_len(), 9);
}

#[test]
fn crc_matches_reference_implementation() {
    let reference = crc::Crc::<u32>::new(&crc::CRC_32_CKSUM);
    for s in ["", "a", "abc", "123456789", "fighter/mario/model/body", "\u{e9}l\u{e8}ve"] {
        assert_eq!(hash40(s).crc(), reference.checksum(s.as_bytes()), "input {:?}", s);
    }
}

#[test]
fn str_len_is_byte_length_mod_256() {
    assert_eq!(hash40("abc").str_len(), 3);
    // A two-byte character counts as two bytes.
    assert_eq!(hash40("\u{e9}").str_len(), 2);
    let len255 = "a".repeat(255);
    let len256 = "a".repeat(256);
    let len257 = "a".repeat(257);
    assert_eq!(hash40(&len255).str_len(), 255);
    assert_eq!(hash40(&len256).str_len(), 0);
    assert_eq!(hash40(&len257).str_len(), 1);
}

#[test]
fn packing_layout() {
    let h = hash40("abc");
    assert_eq!(h.0 & 0xFFFF_FFFF, h.crc() as u64);
    assert_eq!((h.0 >> 32) & 0xFF, h.str_len() as u64);
    assert_eq!(h.0 >> 40, 0);
}

#[test]
fn concat_matches_hashing_whole() {
    assert_eq!(hash40("hello").concat(hash40("world")), hash40("helloworld"));
    assert_eq!(hash40("").concat(hash40("abc")), hash40("abc"));
    assert_eq!(hash40("abc").concat(hash40("")), hash40("abc"));
}

#[test]
fn concat_str_matches_hashing_whole() {
    assert_eq!(hash40("fighter/").concat_str("mario"), hash40("fighter/mario"));
}

#[test]
fn join_path_inserts_separator() {
    assert_eq!(hash40("fighter").join_path(hash40("mario")), hash40("fighter/mario"));
    assert_eq!(hash40("").join_path(hash40("")), hash40("/"));
}

#[test]
fn concat_length_wraps_modulo_256() {
    let a = "x".repeat(200);
    let b = "y".repeat(200);
    let joined = format!("{}{}", a, b);
    let combined = hash40(&a).concat(hash40(&b));
    assert_eq!(combined, hash40(&joined));
    assert_eq!(combined.str_len(), (400 % 256) as u8);
}

#[test]
fn hashes_are_ordered_numerically() {
    assert!(Hash40(1) < Hash40(2));
    assert!(Hash40(0xFF_FFFF_FFFF) > Hash40(0));
    assert_eq!(Hash40::default(), Hash40(0));
}
