//! The packed 40-bit identifier: a CRC-32 checksum of a string's UTF-8
//! bytes in the low 32 bits, and the byte length truncated to 8 bits in
//! bits 32 to 39.  Bits 40 to 63 are not produced by hashing; binary
//! formats may carry out-of-band metadata there.

use vstd::prelude::*;

use crate::crc32::{
    crc32_cksum, crc32_exec, crc_zeros, crc_zeros_exec, lemma_crc32_concat, CRC32_XOR_OUT,
};
use crate::errors::ParseHashError;
use crate::hex::{parse_hex_bytes, spec_from_hex_str};

verus! {

use vstd::string::StringSliceAdditionalSpecFns;

/// The central type of the crate: a string hashed to a CRC-32 checksum
/// packed with the string's truncated byte length.
#[derive(Debug, Default, Copy, Clone, Hash, PartialEq, Eq, Structural, PartialOrd, Ord)]
pub struct Hash40(pub u64);

/// The checksum part of a packed value: the low 32 bits.
pub open spec fn spec_crc(h: u64) -> u32 {
    (h % 0x1_0000_0000) as u32
}

/// The length part of a packed value: bits 32 to 39.
pub open spec fn spec_len(h: u64) -> u8 {
    ((h / 0x1_0000_0000) % 0x100) as u8
}

/// A checksum and a length byte packed into the low 40 bits of a word.
pub open spec fn spec_pack(crc: u32, len: u8) -> u64 {
    ((len as u64) << 32u64) | (crc as u64)
}

/// The hash of a byte sequence: its CRC-32 CKSUM checksum packed with its
/// length reduced modulo 256.
pub open spec fn spec_hash40(bytes: Seq<u8>) -> u64 {
    spec_pack(crc32_cksum(bytes), (bytes.len() % 256) as u8)
}

/// The packed combination of two hashes: the checksums are combined by the
/// CRC concatenation formula, using the second hash's stored length as the
/// shift distance, and the length bytes are added modulo 256.
pub open spec fn spec_concat(h1: u64, h2: u64) -> u64 {
    spec_pack(
        crc_zeros(spec_crc(h1) ^ CRC32_XOR_OUT, spec_len(h2) as nat) ^ spec_crc(h2),
        ((spec_len(h1) + spec_len(h2)) % 256) as u8,
    )
}

proof fn lemma_pack_crc(crc: u32, len: u8)
    by (bit_vector)
    ensures
        spec_crc(spec_pack(crc, len)) == crc,
{
}

proof fn lemma_pack_len(crc: u32, len: u8)
    by (bit_vector)
    ensures
        spec_len(spec_pack(crc, len)) == len,
{
}

proof fn lemma_pack_low40(crc: u32, len: u8)
    by (bit_vector)
    ensures
        spec_pack(crc, len) < 0x100_0000_0000u64,
{
}

/// Packing then reading the parts back is the identity, and a packed value
/// occupies only the low 40 bits.
pub proof fn lemma_pack_fields(crc: u32, len: u8)
    ensures
        spec_crc(spec_pack(crc, len)) == crc,
        spec_len(spec_pack(crc, len)) == len,
        spec_pack(crc, len) < 0x100_0000_0000u64,
{
    lemma_pack_crc(crc, len);
    lemma_pack_len(crc, len);
    lemma_pack_low40(crc, len);
}

/// An alias for `Hash40::new`, which creates a `Hash40` from a string.
pub fn hash40(string: &str) -> (r: Hash40)
    ensures
        r.0 == spec_hash40(string.spec_bytes()),
{
    Hash40::new(string)
}

impl Hash40 {
    /// Computes a `Hash40` from a string.  This method does not consult any
    /// label map, nor does it check whether the string is already a
    /// hexadecimal rendering.
    pub fn new(string: &str) -> (r: Self)
        ensures
            r.0 == spec_hash40(string.spec_bytes()),
    {
        let bytes = string.as_bytes();
        let crc = crc32_exec(bytes);
        let nlen: usize = bytes.len();
        let len8: u8 = nlen as u8;
        proof {
            assert(nlen as u8 == (nlen % 256usize) as u8) by (bit_vector);
        }
        Hash40(((len8 as u64) << 32u64) | (crc as u64))
    }

    /// Converts a hexadecimal string representation of a hash to a
    /// `Hash40`.  The text must begin with `"0x"`; the remainder must be a
    /// hexadecimal numeral that fits in 64 bits.  Inputs shorter than two
    /// characters fail with the missing-prefix error.
    pub fn from_hex_str(value: &str) -> (r: Result<Self, ParseHashError>)
        ensures
            match spec_from_hex_str(value.spec_bytes()) {
                Ok(v) => r == Ok::<Hash40, ParseHashError>(Hash40(v)),
                Err(e) => r == Err::<Hash40, ParseHashError>(e),
            },
    {
        let bytes = value.as_bytes();
        if bytes.len() < 2 || bytes[0] != 0x30 || bytes[1] != 0x78 {
            return Err(ParseHashError::MissingPrefix);
        }
        match parse_hex_bytes(bytes, 2) {
            Ok(v) => Ok(Hash40(v)),
            Err(k) => Err(ParseHashError::ParseError(k)),
        }
    }

    /// Returns the CRC-32 part of the hash.
    pub fn crc(self) -> (r: u32)
        ensures
            r == spec_crc(self.0),
    {
        proof {
            let h = self.0;
            assert(h as u32 == (h % 0x1_0000_0000u64) as u32) by (bit_vector);
        }
        self.0 as u32
    }

    /// Returns the string-length part of the hash.
    pub fn str_len(self) -> (r: u8)
        ensures
            r == spec_len(self.0),
    {
        proof {
            let h = self.0;
            assert((h >> 32u64) as u8 == ((h / 0x1_0000_0000u64) % 0x100u64) as u8)
                by (bit_vector);
        }
        (self.0 >> 32u64) as u8
    }

    /// Concatenates two hashes, so that the resulting length and checksum
    /// are the same as if the original data had been hashed in one piece
    /// (see `lemma_concat_law` for the exact statement).
    pub fn concat(self, other: Self) -> (r: Self)
        ensures
            r.0 == spec_concat(self.0, other.0),
    {
        let state = crc_zeros_exec(self.crc() ^ CRC32_XOR_OUT, other.str_len());
        let crc = state ^ other.crc();
        let sum: u16 = (self.str_len() as u16) + (other.str_len() as u16);
        let len8: u8 = (sum % 256) as u8;
        Hash40(((len8 as u64) << 32u64) | (crc as u64))
    }

    /// A convenience method for concatenating a string's hash to a hash.
    pub fn concat_str(self, other: &str) -> (r: Self)
        ensures
            r.0 == spec_concat(self.0, spec_hash40(other.spec_bytes())),
    {
        self.concat(hash40(other))
    }

    /// A convenience method for concatenating two hashes separated by the
    /// path separator `"/"`.
    pub fn join_path(self, other: Self) -> (r: Self)
        ensures
            r.0 == spec_concat(spec_concat(self.0, spec_hash40(seq![0x2Fu8])), other.0),
    {
        proof {
            lemma_slash_bytes();
        }
        self.concat_str("/").concat(other)
    }
}

/// The byte sequence of the path separator literal.
proof fn lemma_slash_bytes()
    ensures
        ("/").spec_bytes() =~= seq![0x2Fu8],
{
    reveal_strlit("/");
    assert(("/")@ =~= seq!['/']);
    assert(vstd::utf8::is_ascii_chars(("/")@));
    vstd::string::is_ascii_spec_bytes("/");
    assert(("/").spec_bytes() =~= Seq::new(1, |i: int| '/' as u8));
}

/// Hashing is deterministic: equal byte sequences hash to equal values.
pub proof fn lemma_hash40_deterministic(a: Seq<u8>, b: Seq<u8>)
    requires
        a == b,
    ensures
        spec_hash40(a) == spec_hash40(b),
{
}

/// The length part of a hash is the input's byte length reduced modulo
/// 256; in particular it equals the byte length itself for inputs shorter
/// than 256 bytes.
pub proof fn lemma_hash40_strlen(bytes: Seq<u8>)
    ensures
        spec_len(spec_hash40(bytes)) == bytes.len() % 256,
        bytes.len() < 256 ==> spec_len(spec_hash40(bytes)) == bytes.len(),
{
    lemma_pack_fields(crc32_cksum(bytes), (bytes.len() % 256) as u8);
}

/// The checksum part of a hash is the input's checksum.
pub proof fn lemma_hash40_crc(bytes: Seq<u8>)
    ensures
        spec_crc(spec_hash40(bytes)) == crc32_cksum(bytes),
{
    lemma_pack_fields(crc32_cksum(bytes), (bytes.len() % 256) as u8);
}

/// The concatenation law: combining the hashes of two byte sequences gives
/// the hash of the concatenated sequence, provided the second sequence is
/// shorter than 256 bytes.  (For a longer second sequence the stored
/// length byte no longer determines the required checksum shift, so the
/// law cannot hold of the packed values.)
pub proof fn lemma_concat_law(a: Seq<u8>, b: Seq<u8>)
    requires
        b.len() < 256,
    ensures
        spec_concat(spec_hash40(a), spec_hash40(b)) == spec_hash40(a + b),
{
    lemma_crc32_concat(a, b);
    lemma_pack_fields(crc32_cksum(a), (a.len() % 256) as u8);
    lemma_pack_fields(crc32_cksum(b), (b.len() % 256) as u8);
    assert(spec_len(spec_hash40(b)) as nat == b.len());
    assert((a.len() % 256 + b.len() % 256) % 256 == (a.len() + b.len()) % 256) by {
        vstd::arithmetic::div_mod::lemma_add_mod_noop(a.len() as int, b.len() as int, 256);
    };
    assert((a + b).len() == a.len() + b.len());
}

/// Encoding characters to UTF-8 distributes over concatenation.
proof fn lemma_encode_utf8_append(a: Seq<char>, b: Seq<char>)
    ensures
        vstd::utf8::encode_utf8(a + b) == vstd::utf8::encode_utf8(a) + vstd::utf8::encode_utf8(b),
    decreases a.len(),
{
    if a.len() == 0 {
        assert(a + b =~= b);
        assert(vstd::utf8::encode_utf8(a + b) =~= vstd::utf8::encode_utf8(a)
            + vstd::utf8::encode_utf8(b));
    } else {
        assert((a + b).drop_first() =~= a.drop_first() + b);
        lemma_encode_utf8_append(a.drop_first(), b);
        assert(vstd::utf8::encode_utf8(a + b) =~= vstd::utf8::encode_utf8(a)
            + vstd::utf8::encode_utf8(b));
    }
}

/// The concatenation law stated over strings: combining the hashes of two
/// character sequences gives the hash of the concatenated text, provided
/// the second one's UTF-8 form is shorter than 256 bytes.
pub proof fn lemma_concat_law_str(a: Seq<char>, b: Seq<char>)
    requires
        vstd::utf8::encode_utf8(b).len() < 256,
    ensures
        spec_concat(
            spec_hash40(vstd::utf8::encode_utf8(a)),
            spec_hash40(vstd::utf8::encode_utf8(b)),
        ) == spec_hash40(vstd::utf8::encode_utf8(a + b)),
{
    lemma_encode_utf8_append(a, b);
    lemma_concat_law(vstd::utf8::encode_utf8(a), vstd::utf8::encode_utf8(b));
}

} // verus!
