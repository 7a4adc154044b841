//! A 40-bit content-derived identifier ("Hash40") packing a CRC-32 checksum
//! of a string's UTF-8 bytes with the string's byte length, together with a
//! label registry that resolves identifiers back to human-readable labels.

pub mod bimap_spec;
pub mod codec;
pub mod crc32;
pub mod errors;
pub mod hash;
pub mod hex;
pub mod label_map;
pub mod resolve;

pub use hash::hash40;
pub use hash::Hash40;

