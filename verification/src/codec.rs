//! Binary encoding of a hash: eight bytes in a caller-selected byte
//! order.  The plain form carries the hash's backing word as it stands;
//! the metadata form splits the word into the low 40 bits (the hash) and
//! the high 24 bits (an out-of-band payload).

use vstd::prelude::*;

use crate::hash::Hash40;

verus! {

/// The byte order of an eight-byte binary encoding.
#[derive(Debug, Clone, Copy, PartialEq, Eq, Structural)]
pub enum Endian {
    Little,
    Big,
}

/// The eight bytes of a 64-bit word in the given byte order.
pub open spec fn spec_encode_u64(x: u64, e: Endian) -> Seq<u8> {
    match e {
        Endian::Little => Seq::new(8, |i: int| ((x >> ((8 * i) as u64)) & 0xFF) as u8),
        Endian::Big => Seq::new(8, |i: int| ((x >> ((56 - 8 * i) as u64)) & 0xFF) as u8),
    }
}

/// The 64-bit word denoted by eight bytes in the given byte order.
pub open spec fn spec_decode_u64(bs: Seq<u8>, e: Endian) -> u64 {
    match e {
        Endian::Little => ((bs[0] as u64) << 0u64) | ((bs[1] as u64) << 8u64) | ((bs[2] as u64)
            << 16u64) | ((bs[3] as u64) << 24u64) | ((bs[4] as u64) << 32u64) | ((bs[5] as u64)
            << 40u64) | ((bs[6] as u64) << 48u64) | ((bs[7] as u64) << 56u64),
        Endian::Big => ((bs[7] as u64) << 0u64) | ((bs[6] as u64) << 8u64) | ((bs[5] as u64)
            << 16u64) | ((bs[4] as u64) << 24u64) | ((bs[3] as u64) << 32u64) | ((bs[2] as u64)
            << 40u64) | ((bs[1] as u64) << 48u64) | ((bs[0] as u64) << 56u64),
    }
}

/// The hash part of a raw 64-bit word: its low 40 bits.
pub open spec fn spec_hash_part(raw: u64) -> u64 {
    raw % 0x100_0000_0000
}

/// The metadata part of a raw 64-bit word: its high 24 bits.
pub open spec fn spec_meta_part(raw: u64) -> u32 {
    (raw / 0x100_0000_0000) as u32
}

/// A hash occupying its low 40 bits joined with a 24-bit metadata payload
/// in the high bits.
pub open spec fn spec_join(h: u64, meta: u32) -> u64 {
    (h + (meta % 0x100_0000) * 0x100_0000_0000) as u64
}

/// Encodes a 64-bit word as eight bytes in the given byte order.
fn encode_u64(x: u64, e: Endian) -> (v: Vec<u8>)
    ensures
        v@ == spec_encode_u64(x, e),
{
    let mut v: Vec<u8> = Vec::new();
    match e {
        Endian::Little => {
            v.push((x & 0xFF) as u8);
            v.push(((x >> 8u64) & 0xFF) as u8);
            v.push(((x >> 16u64) & 0xFF) as u8);
            v.push(((x >> 24u64) & 0xFF) as u8);
            v.push(((x >> 32u64) & 0xFF) as u8);
            v.push(((x >> 40u64) & 0xFF) as u8);
            v.push(((x >> 48u64) & 0xFF) as u8);
            v.push(((x >> 56u64) & 0xFF) as u8);
            proof {
                assert(x >> 0u64 == x) by (bit_vector);
                assert(v@ =~= spec_encode_u64(x, e));
            }
        },
        Endian::Big => {
            v.push(((x >> 56u64) & 0xFF) as u8);
            v.push(((x >> 48u64) & 0xFF) as u8);
            v.push(((x >> 40u64) & 0xFF) as u8);
            v.push(((x >> 32u64) & 0xFF) as u8);
            v.push(((x >> 24u64) & 0xFF) as u8);
            v.push(((x >> 16u64) & 0xFF) as u8);
            v.push(((x >> 8u64) & 0xFF) as u8);
            v.push((x & 0xFF) as u8);
            proof {
                assert(x >> 0u64 == x) by (bit_vector);
                assert(v@ =~= spec_encode_u64(x, e));
            }
        },
    }
    v
}

/// Decodes eight bytes as a 64-bit word in the given byte order.
fn decode_u64(bytes: &[u8], e: Endian) -> (x: u64)
    requires
        bytes@.len() == 8,
    ensures
        x == spec_decode_u64(bytes@, e),
{
    match e {
        Endian::Little => ((bytes[0] as u64) << 0u64) | ((bytes[1] as u64) << 8u64) | ((bytes[2]
            as u64) << 16u64) | ((bytes[3] as u64) << 24u64) | ((bytes[4] as u64) << 32u64) | ((
        bytes[5] as u64) << 40u64) | ((bytes[6] as u64) << 48u64) | ((bytes[7] as u64) << 56u64),
        Endian::Big => ((bytes[7] as u64) << 0u64) | ((bytes[6] as u64) << 8u64) | ((bytes[5]
            as u64) << 16u64) | ((bytes[4] as u64) << 24u64) | ((bytes[3] as u64) << 32u64) | ((
        bytes[2] as u64) << 40u64) | ((bytes[1] as u64) << 48u64) | ((bytes[0] as u64) << 56u64),
    }
}

impl Hash40 {
    /// The hash denoted by a raw 64-bit word: the word masked to its low
    /// 40 bits, as read from a binary stream.
    pub fn from_raw(raw: u64) -> (r: Self)
        ensures
            r.0 == spec_hash_part(raw),
    {
        proof {
            assert(raw & 0xFF_FFFF_FFFF == raw % 0x100_0000_0000u64) by (bit_vector);
        }
        Hash40(raw & 0xFF_FFFF_FFFF)
    }

    /// The hash and the 24-bit metadata payload denoted by a raw 64-bit
    /// word.
    pub fn from_raw_with_meta(raw: u64) -> (r: (Self, u32))
        ensures
            r.0.0 == spec_hash_part(raw),
            r.1 == spec_meta_part(raw),
    {
        proof {
            assert((raw >> 40u64) as u32 == (raw / 0x100_0000_0000u64) as u32) by (bit_vector);
        }
        (Self::from_raw(raw), (raw >> 40u64) as u32)
    }

    /// The raw 64-bit word carrying this hash and a metadata payload.  The
    /// hash must occupy only its low 40 bits, or the two fields would
    /// overlap; the payload is truncated to 24 bits.
    pub fn to_raw_with_meta(self, meta: u32) -> (raw: u64)
        requires
            self.0 < 0x100_0000_0000,
        ensures
            raw == spec_join(self.0, meta),
    {
        proof {
            let h = self.0;
            let m = meta;
            assert(h | ((m as u64) << 40u64) == (h + ((m as u64) % 0x100_0000u64)
                * 0x100_0000_0000u64) as u64) by (bit_vector)
                requires
                    h < 0x100_0000_0000u64,
            ;
        }
        self.0 | ((meta as u64) << 40u64)
    }

    /// Reads a hash from eight bytes of the given byte order, masking off
    /// the high 24 bits.
    pub fn read_hash40(bytes: &[u8], endian: Endian) -> (r: Self)
        requires
            bytes@.len() == 8,
        ensures
            r.0 == spec_hash_part(spec_decode_u64(bytes@, endian)),
    {
        Self::from_raw(decode_u64(bytes, endian))
    }

    /// Reads a hash and its metadata payload from eight bytes of the given
    /// byte order.
    pub fn read_hash40_with_meta(bytes: &[u8], endian: Endian) -> (r: (Self, u32))
        requires
            bytes@.len() == 8,
        ensures
            r.0.0 == spec_hash_part(spec_decode_u64(bytes@, endian)),
            r.1 == spec_meta_part(spec_decode_u64(bytes@, endian)),
    {
        Self::from_raw_with_meta(decode_u64(bytes, endian))
    }

    /// Writes the hash's backing word, as it stands, as eight bytes of the
    /// given byte order.
    pub fn write_hash40(self, endian: Endian) -> (v: Vec<u8>)
        ensures
            v@ == spec_encode_u64(self.0, endian),
    {
        encode_u64(self.0, endian)
    }

    /// Writes the hash joined with a metadata payload as eight bytes of
    /// the given byte order.  The hash must occupy only its low 40 bits.
    pub fn write_hash40_with_meta(self, meta: u32, endian: Endian) -> (v: Vec<u8>)
        requires
            self.0 < 0x100_0000_0000,
        ensures
            v@ == spec_encode_u64(spec_join(self.0, meta), endian),
    {
        encode_u64(self.to_raw_with_meta(meta), endian)
    }
}

/// Eight encoded bytes decode back to the word they came from.
proof fn lemma_u64_round_trip(x: u64, e: Endian)
    ensures
        spec_decode_u64(spec_encode_u64(x, e), e) == x,
{
    let b = spec_encode_u64(x, e);
    match e {
        Endian::Little => {
            assert(((((x >> ((8 * 0) as u64)) & 0xFF) as u8 as u64) << 0u64) | ((((x >> ((8
                * 1) as u64)) & 0xFF) as u8 as u64) << 8u64) | ((((x >> ((8 * 2) as u64))
                & 0xFF) as u8 as u64) << 16u64) | ((((x >> ((8 * 3) as u64)) & 0xFF) as u8
                as u64) << 24u64) | ((((x >> ((8 * 4) as u64)) & 0xFF) as u8 as u64) << 32u64)
                | ((((x >> ((8 * 5) as u64)) & 0xFF) as u8 as u64) << 40u64) | ((((x >> ((8
                * 6) as u64)) & 0xFF) as u8 as u64) << 48u64) | ((((x >> ((8 * 7) as u64))
                & 0xFF) as u8 as u64) << 56u64) == x) by (bit_vector);
        },
        Endian::Big => {
            assert(((((x >> ((56 - 8 * 7) as u64)) & 0xFF) as u8 as u64) << 0u64) | ((((x >> ((56
                - 8 * 6) as u64)) & 0xFF) as u8 as u64) << 8u64) | ((((x >> ((56 - 8 * 5) as u64))
                & 0xFF) as u8 as u64) << 16u64) | ((((x >> ((56 - 8 * 4) as u64)) & 0xFF) as u8
                as u64) << 24u64) | ((((x >> ((56 - 8 * 3) as u64)) & 0xFF) as u8 as u64) << 32u64)
                | ((((x >> ((56 - 8 * 2) as u64)) & 0xFF) as u8 as u64) << 40u64) | ((((x >> ((56
                - 8 * 1) as u64)) & 0xFF) as u8 as u64) << 48u64) | ((((x >> ((56 - 8
                * 0) as u64)) & 0xFF) as u8 as u64) << 56u64) == x) by (bit_vector);
        },
    }
}

/// Decoding an encoded hash yields the hash back, for a hash that
/// occupies only its low 40 bits.
pub proof fn lemma_binary_round_trip(h: Hash40, e: Endian)
    requires
        h.0 < 0x100_0000_0000,
    ensures
        spec_hash_part(spec_decode_u64(spec_encode_u64(h.0, e), e)) == h.0,
{
    lemma_u64_round_trip(h.0, e);
}

/// Decoding an encoded hash-with-metadata pair yields both parts back,
/// for a hash that occupies only its low 40 bits and a payload that fits
/// in 24 bits.
pub proof fn lemma_binary_round_trip_with_meta(h: Hash40, meta: u32, e: Endian)
    requires
        h.0 < 0x100_0000_0000,
        meta < 0x100_0000,
    ensures
        spec_hash_part(spec_decode_u64(spec_encode_u64(spec_join(h.0, meta), e), e)) == h.0,
        spec_meta_part(spec_decode_u64(spec_encode_u64(spec_join(h.0, meta), e), e)) == meta,
{
    lemma_u64_round_trip(spec_join(h.0, meta), e);
    let x = h.0;
    let m = meta;
    assert(spec_hash_part(spec_join(x, m)) == x) by (bit_vector)
        requires
            x < 0x100_0000_0000u64,
    ;
    assert(spec_meta_part(spec_join(x, m)) == m) by (bit_vector)
        requires
            x < 0x100_0000_0000u64,
            m < 0x100_0000u32,
    ;
}

} // verus!
