use hash40::codec::Endian;
use hash40::{hash40, Hash40};

#[test]
fn plain_round_trip_little_endian() {
    let h = hash40("fighter/mario/model/body");
    let bytes = h.write_hash40(Endian::Little);
    assert_eq!(bytes.len(), 8);
    assert_eq!(Hash40::read_hash40(&bytes, Endian::Little), h);
}

#[test]
fn plain_round_trip_big_endian() {
    let h = hash40("fighter/mario/model/body");
    let bytes = h.write_hash40(Endian::Big);
    assert_eq!(bytes.len(), 8);
    assert_eq!(Hash40::read_hash40(&bytes, Endian::Big), h);
}

#[test]
fn byte_layout_little_endian() {
    let bytes = Hash40(0x01_0203_0405).write_hash40(Endian::Little);
    assert_eq!(bytes, vec![0x05, 0x04, 0x03, 0x02, 0x01, 0x00, 0x00, 0x00]);
}

#[test]
fn byte_layout_big_endian() {
    let bytes = Hash40(0x01_0203_0405).write_hash40(Endian::Big);
    assert_eq!(bytes, vec![0x00, 0x00, 0x00, 0x01, 0x02, 0x03, 0x04, 0x05]);
}

#[test]
fn metadata_round_trip() {
    let h = hash40("abc");
    for meta in [0u32, 1, 0xAB_CDEF, 0xFF_FFFF] {
        for e in [Endian::Little, Endian::Big] {
            let bytes = h.write_hash40_with_meta(meta, e);
            assert_eq!(Hash40::read_hash40_with_meta(&bytes, e), (h, meta));
        }
    }
}

#[test]
fn decoding_masks_high_bits() {
    let bytes = Hash40(0xFFFF_FFFF_FFFF_FFFF).write_hash40(Endian::Little);
    assert_eq!(Hash40::read_hash40(&bytes, Endian::Little), Hash40(0xFF_FFFF_FFFF));
}

#[test]
fn raw_word_split_and_join() {
    assert_eq!(Hash40::from_raw(0xFFFF_FFFF_FFFF), Hash40(0xFF_FFFF_FFFF));
    assert_eq!(Hash40::from_raw_with_meta((42u64 << 40) | 7), (Hash40(7), 42));
    assert_eq!(Hash40(7).to_raw_with_meta(42), (42u64 << 40) | 7);
    // The payload is truncated to 24 bits.
    assert_eq!(Hash40(7).to_raw_with_meta(0x0100_0001), (1u64 << 40) | 7);
}

#[test]
fn endianness_changes_wire_form() {
    let h = hash40("abc");
    let le = h.write_hash40(Endian::Little);
    let be = h.write_hash40(Endian::Big);
    assert_ne!(le, be);
    let reversed: Vec<u8> = be.iter().rev().copied().collect();
    assert_eq!(le, reversed);
}
