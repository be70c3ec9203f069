//! The codec traits of record types.
//!
//! A record type of a program implements these traits field by field: its
//! packed size is the sum of the packed sizes of its fields, and its bytes
//! are the bytes of its fields, each in the byte range that the fields
//! before it leave. The machine integers and the byte arrays implement them
//! in this crate.

use vstd::prelude::*;

verus! {

/// The size of a type as packed bytes, which no alignment enlarges.
pub trait PackedSize {
    /// The exact number of bytes that a value of the type occupies.
    const PACKED_LEN: usize;
}

/// Encoded as little-endian bytes.
pub trait EncodeLE: PackedSize {
    /// Packs `self` into `bytes` in little-endian representation. `bytes`
    /// has to be exactly `PACKED_LEN` long.
    fn encode_as_le_bytes(&self, bytes: &mut [u8])
        requires
            old(bytes)@.len() == Self::PACKED_LEN,
        ensures
            final(bytes)@.len() == old(bytes)@.len(),
    ;
}

/// Encoded as big-endian bytes.
pub trait EncodeBE: PackedSize {
    /// Packs `self` into `bytes` in big-endian representation. `bytes` has
    /// to be exactly `PACKED_LEN` long.
    fn encode_as_be_bytes(&self, bytes: &mut [u8])
        requires
            old(bytes)@.len() == Self::PACKED_LEN,
        ensures
            final(bytes)@.len() == old(bytes)@.len(),
    ;
}

/// Encoded as mixed-endian bytes: every field in an order of its own.
pub trait EncodeME: PackedSize {
    /// Packs `self` into `bytes` in mixed-endian representation. `bytes` has
    /// to be exactly `PACKED_LEN` long.
    fn encode_as_me_bytes(&self, bytes: &mut [u8])
        requires
            old(bytes)@.len() == Self::PACKED_LEN,
        ensures
            final(bytes)@.len() == old(bytes)@.len(),
    ;
}

/// Decoded from little-endian bytes.
pub trait DecodeLE: PackedSize + Sized {
    /// Reads a value from `bytes` in little-endian representation. `bytes`
    /// has to be exactly `PACKED_LEN` long.
    fn decode_from_le_bytes(bytes: &[u8]) -> (value: Self)
        requires
            bytes@.len() == Self::PACKED_LEN,
    ;
}

/// Decoded from big-endian bytes.
pub trait DecodeBE: PackedSize + Sized {
    /// Reads a value from `bytes` in big-endian representation. `bytes` has
    /// to be exactly `PACKED_LEN` long.
    fn decode_from_be_bytes(bytes: &[u8]) -> (value: Self)
        requires
            bytes@.len() == Self::PACKED_LEN,
    ;
}

/// Decoded from mixed-endian bytes: every field in an order of its own.
pub trait DecodeME: PackedSize + Sized {
    /// Reads a value from `bytes` in mixed-endian representation. `bytes`
    /// has to be exactly `PACKED_LEN` long.
    fn decode_from_me_bytes(bytes: &[u8]) -> (value: Self)
        requires
            bytes@.len() == Self::PACKED_LEN,
    ;
}

} // verus!
