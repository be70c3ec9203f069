//! The codec of the machine integers.
//!
//! A number is laid out as its two's complement, least or most significant
//! byte first. A number of one byte is laid out the same under every order,
//! and it alone has a mixed-endian layout, which is the big-endian one.

use crate::order::ByteOrder;
use crate::primitive::{int_bytes, int_value, raw_bytes, raw_value, Primitive};
use crate::radix::lemma_bytes_len;
use crate::traits::{DecodeBE, DecodeLE, DecodeME, EncodeBE, EncodeLE, EncodeME, PackedSize};
use vstd::prelude::*;

verus! {

/// Fills `bytes` with the bytes of the number of type `p` whose two's
/// complement is `raw`.
fn pack(p: Primitive, bytes: &mut [u8], raw: u128, order: ByteOrder)
    requires
        old(bytes)@.len() == p.spec_width(),
    ensures
        final(bytes)@ == raw_bytes(raw as nat, p.spec_width(), order),
        final(bytes)@.len() == old(bytes)@.len(),
{
    p.write(bytes, 0, raw, order);
    proof {
        lemma_bytes_len(raw as nat, p.spec_width());
        assert(bytes@ =~= raw_bytes(raw as nat, p.spec_width(), order));
    }
}

/// The two's complement of the number of type `p` that fills `bytes`.
fn unpack(p: Primitive, bytes: &[u8], order: ByteOrder) -> (raw: u128)
    requires
        bytes@.len() == p.spec_width(),
    ensures
        raw == raw_value(bytes@, order),
        raw < p.modulus(),
{
    proof {
        assert(bytes@.subrange(0, p.spec_width() as int) =~= bytes@);
    }
    p.read(bytes, 0, order)
}

impl PackedSize for u8 {
    const PACKED_LEN: usize = 1;
}

impl EncodeLE for u8 {
    /// Packs the number into `bytes`, least significant byte first.
    fn encode_as_le_bytes(&self, bytes: &mut [u8])
        ensures
            final(bytes)@ == int_bytes(Primitive::U8, *self as int, ByteOrder::Little),
    {
        pack(Primitive::U8, bytes, *self as u128, ByteOrder::Little);
    }
}

impl EncodeBE for u8 {
    /// Packs the number into `bytes`, most significant byte first.
    fn encode_as_be_bytes(&self, bytes: &mut [u8])
        ensures
            final(bytes)@ == int_bytes(Primitive::U8, *self as int, ByteOrder::Big),
    {
        pack(Primitive::U8, bytes, *self as u128, ByteOrder::Big);
    }
}

impl EncodeME for u8 {
    /// Packs the number into `bytes`, which is one byte under every order.
    fn encode_as_me_bytes(&self, bytes: &mut [u8])
        ensures
            final(bytes)@ == int_bytes(Primitive::U8, *self as int, ByteOrder::Mixed),
    {
        pack(Primitive::U8, bytes, *self as u128, ByteOrder::Mixed);
    }
}

impl DecodeLE for u8 {
    /// Reads the number that fills `bytes`, least significant byte first.
    fn decode_from_le_bytes(bytes: &[u8]) -> (value: Self)
        ensures
            value == int_value(Primitive::U8, bytes@, ByteOrder::Little),
    {
        unpack(Primitive::U8, bytes, ByteOrder::Little) as u8
    }
}

impl DecodeBE for u8 {
    /// Reads the number that fills `bytes`, most significant byte first.
    fn decode_from_be_bytes(bytes: &[u8]) -> (value: Self)
        ensures
            value == int_value(Primitive::U8, bytes@, ByteOrder::Big),
    {
        unpack(Primitive::U8, bytes, ByteOrder::Big) as u8
    }
}

impl DecodeME for u8 {
    /// Reads the number that fills `bytes`, which is one byte under every order.
    fn decode_from_me_bytes(bytes: &[u8]) -> (value: Self)
        ensures
            value == int_value(Primitive::U8, bytes@, ByteOrder::Mixed),
    {
        unpack(Primitive::U8, bytes, ByteOrder::Mixed) as u8
    }
}

impl PackedSize for i8 {
    const PACKED_LEN: usize = 1;
}

impl EncodeLE for i8 {
    /// Packs the number into `bytes`, least significant byte first.
    fn encode_as_le_bytes(&self, bytes: &mut [u8])
        ensures
            final(bytes)@ == int_bytes(Primitive::I8, *self as int, ByteOrder::Little),
    {
        pack(Primitive::I8, bytes, Primitive::I8.to_unsigned(*self as i128), ByteOrder::Little);
    }
}

impl EncodeBE for i8 {
    /// Packs the number into `bytes`, most significant byte first.
    fn encode_as_be_bytes(&self, bytes: &mut [u8])
        ensures
            final(bytes)@ == int_bytes(Primitive::I8, *self as int, ByteOrder::Big),
    {
        pack(Primitive::I8, bytes, Primitive::I8.to_unsigned(*self as i128), ByteOrder::Big);
    }
}

impl EncodeME for i8 {
    /// Packs the number into `bytes`, which is one byte under every order.
    fn encode_as_me_bytes(&self, bytes: &mut [u8])
        ensures
            final(bytes)@ == int_bytes(Primitive::I8, *self as int, ByteOrder::Mixed),
    {
        pack(Primitive::I8, bytes, Primitive::I8.to_unsigned(*self as i128), ByteOrder::Mixed);
    }
}

impl DecodeLE for i8 {
    /// Reads the number that fills `bytes`, least significant byte first.
    fn decode_from_le_bytes(bytes: &[u8]) -> (value: Self)
        ensures
            value == int_value(Primitive::I8, bytes@, ByteOrder::Little),
    {
        Primitive::I8.to_signed(unpack(Primitive::I8, bytes, ByteOrder::Little)) as i8
    }
}

impl DecodeBE for i8 {
    /// Reads the number that fills `bytes`, most significant byte first.
    fn decode_from_be_bytes(bytes: &[u8]) -> (value: Self)
        ensures
            value == int_value(Primitive::I8, bytes@, ByteOrder::Big),
    {
        Primitive::I8.to_signed(unpack(Primitive::I8, bytes, ByteOrder::Big)) as i8
    }
}

impl DecodeME for i8 {
    /// Reads the number that fills `bytes`, which is one byte under every order.
    fn decode_from_me_bytes(bytes: &[u8]) -> (value: Self)
        ensures
            value == int_value(Primitive::I8, bytes@, ByteOrder::Mixed),
    {
        Primitive::I8.to_signed(unpack(Primitive::I8, bytes, ByteOrder::Mixed)) as i8
    }
}

impl PackedSize for u16 {
    const PACKED_LEN: usize = 2;
}

impl EncodeLE for u16 {
    /// Packs the number into `bytes`, least significant byte first.
    fn encode_as_le_bytes(&self, bytes: &mut [u8])
        ensures
            final(bytes)@ == int_bytes(Primitive::U16, *self as int, ByteOrder::Little),
    {
        pack(Primitive::U16, bytes, *self as u128, ByteOrder::Little);
    }
}

impl EncodeBE for u16 {
    /// Packs the number into `bytes`, most significant byte first.
    fn encode_as_be_bytes(&self, bytes: &mut [u8])
        ensures
            final(bytes)@ == int_bytes(Primitive::U16, *self as int, ByteOrder::Big),
    {
        pack(Primitive::U16, bytes, *self as u128, ByteOrder::Big);
    }
}

impl DecodeLE for u16 {
    /// Reads the number that fills `bytes`, least significant byte first.
    fn decode_from_le_bytes(bytes: &[u8]) -> (value: Self)
        ensures
            value == int_value(Primitive::U16, bytes@, ByteOrder::Little),
    {
        unpack(Primitive::U16, bytes, ByteOrder::Little) as u16
    }
}

impl DecodeBE for u16 {
    /// Reads the number that fills `bytes`, most significant byte first.
    fn decode_from_be_bytes(bytes: &[u8]) -> (value: Self)
        ensures
            value == int_value(Primitive::U16, bytes@, ByteOrder::Big),
    {
        unpack(Primitive::U16, bytes, ByteOrder::Big) as u16
    }
}

impl PackedSize for i16 {
    const PACKED_LEN: usize = 2;
}

impl EncodeLE for i16 {
    /// Packs the number into `bytes`, least significant byte first.
    fn encode_as_le_bytes(&self, bytes: &mut [u8])
        ensures
            final(bytes)@ == int_bytes(Primitive::I16, *self as int, ByteOrder::Little),
    {
        pack(Primitive::I16, bytes, Primitive::I16.to_unsigned(*self as i128), ByteOrder::Little);
    }
}

impl EncodeBE for i16 {
    /// Packs the number into `bytes`, most significant byte first.
    fn encode_as_be_bytes(&self, bytes: &mut [u8])
        ensures
            final(bytes)@ == int_bytes(Primitive::I16, *self as int, ByteOrder::Big),
    {
        pack(Primitive::I16, bytes, Primitive::I16.to_unsigned(*self as i128), ByteOrder::Big);
    }
}

impl DecodeLE for i16 {
    /// Reads the number that fills `bytes`, least significant byte first.
    fn decode_from_le_bytes(bytes: &[u8]) -> (value: Self)
        ensures
            value == int_value(Primitive::I16, bytes@, ByteOrder::Little),
    {
        Primitive::I16.to_signed(unpack(Primitive::I16, bytes, ByteOrder::Little)) as i16
    }
}

impl DecodeBE for i16 {
    /// Reads the number that fills `bytes`, most significant byte first.
    fn decode_from_be_bytes(bytes: &[u8]) -> (value: Self)
        ensures
            value == int_value(Primitive::I16, bytes@, ByteOrder::Big),
    {
        Primitive::I16.to_signed(unpack(Primitive::I16, bytes, ByteOrder::Big)) as i16
    }
}

impl PackedSize for u32 {
    const PACKED_LEN: usize = 4;
}

impl EncodeLE for u32 {
    /// Packs the number into `bytes`, least significant byte first.
    fn encode_as_le_bytes(&self, bytes: &mut [u8])
        ensures
            final(bytes)@ == int_bytes(Primitive::U32, *self as int, ByteOrder::Little),
    {
        pack(Primitive::U32, bytes, *self as u128, ByteOrder::Little);
    }
}

impl EncodeBE for u32 {
    /// Packs the number into `bytes`, most significant byte first.
    fn encode_as_be_bytes(&self, bytes: &mut [u8])
        ensures
            final(bytes)@ == int_bytes(Primitive::U32, *self as int, ByteOrder::Big),
    {
        pack(Primitive::U32, bytes, *self as u128, ByteOrder::Big);
    }
}

impl DecodeLE for u32 {
    /// Reads the number that fills `bytes`, least significant byte first.
    fn decode_from_le_bytes(bytes: &[u8]) -> (value: Self)
        ensures
            value == int_value(Primitive::U32, bytes@, ByteOrder::Little),
    {
        unpack(Primitive::U32, bytes, ByteOrder::Little) as u32
    }
}

impl DecodeBE for u32 {
    /// Reads the number that fills `bytes`, most significant byte first.
    fn decode_from_be_bytes(bytes: &[u8]) -> (value: Self)
        ensures
            value == int_value(Primitive::U32, bytes@, ByteOrder::Big),
    {
        unpack(Primitive::U32, bytes, ByteOrder::Big) as u32
    }
}

impl PackedSize for i32 {
    const PACKED_LEN: usize = 4;
}

impl EncodeLE for i32 {
    /// Packs the number into `bytes`, least significant byte first.
    fn encode_as_le_bytes(&self, bytes: &mut [u8])
        ensures
            final(bytes)@ == int_bytes(Primitive::I32, *self as int, ByteOrder::Little),
    {
        pack(Primitive::I32, bytes, Primitive::I32.to_unsigned(*self as i128), ByteOrder::Little);
    }
}

impl EncodeBE for i32 {
    /// Packs the number into `bytes`, most significant byte first.
    fn encode_as_be_bytes(&self, bytes: &mut [u8])
        ensures
            final(bytes)@ == int_bytes(Primitive::I32, *self as int, ByteOrder::Big),
    {
        pack(Primitive::I32, bytes, Primitive::I32.to_unsigned(*self as i128), ByteOrder::Big);
    }
}

impl DecodeLE for i32 {
    /// Reads the number that fills `bytes`, least significant byte first.
    fn decode_from_le_bytes(bytes: &[u8]) -> (value: Self)
        ensures
            value == int_value(Primitive::I32, bytes@, ByteOrder::Little),
    {
        Primitive::I32.to_signed(unpack(Primitive::I32, bytes, ByteOrder::Little)) as i32
    }
}

impl DecodeBE for i32 {
    /// Reads the number that fills `bytes`, most significant byte first.
    fn decode_from_be_bytes(bytes: &[u8]) -> (value: Self)
        ensures
            value == int_value(Primitive::I32, bytes@, ByteOrder::Big),
    {
        Primitive::I32.to_signed(unpack(Primitive::I32, bytes, ByteOrder::Big)) as i32
    }
}

impl PackedSize for u64 {
    const PACKED_LEN: usize = 8;
}

impl EncodeLE for u64 {
    /// Packs the number into `bytes`, least significant byte first.
    fn encode_as_le_bytes(&self, bytes: &mut [u8])
        ensures
            final(bytes)@ == int_bytes(Primitive::U64, *self as int, ByteOrder::Little),
    {
        pack(Primitive::U64, bytes, *self as u128, ByteOrder::Little);
    }
}

impl EncodeBE for u64 {
    /// Packs the number into `bytes`, most significant byte first.
    fn encode_as_be_bytes(&self, bytes: &mut [u8])
        ensures
            final(bytes)@ == int_bytes(Primitive::U64, *self as int, ByteOrder::Big),
    {
        pack(Primitive::U64, bytes, *self as u128, ByteOrder::Big);
    }
}

impl DecodeLE for u64 {
    /// Reads the number that fills `bytes`, least significant byte first.
    fn decode_from_le_bytes(bytes: &[u8]) -> (value: Self)
        ensures
            value == int_value(Primitive::U64, bytes@, ByteOrder::Little),
    {
        unpack(Primitive::U64, bytes, ByteOrder::Little) as u64
    }
}

impl DecodeBE for u64 {
    /// Reads the number that fills `bytes`, most significant byte first.
    fn decode_from_be_bytes(bytes: &[u8]) -> (value: Self)
        ensures
            value == int_value(Primitive::U64, bytes@, ByteOrder::Big),
    {
        unpack(Primitive::U64, bytes, ByteOrder::Big) as u64
    }
}

impl PackedSize for i64 {
    const PACKED_LEN: usize = 8;
}

impl EncodeLE for i64 {
    /// Packs the number into `bytes`, least significant byte first.
    fn encode_as_le_bytes(&self, bytes: &mut [u8])
        ensures
            final(bytes)@ == int_bytes(Primitive::I64, *self as int, ByteOrder::Little),
    {
        pack(Primitive::I64, bytes, Primitive::I64.to_unsigned(*self as i128), ByteOrder::Little);
    }
}

impl EncodeBE for i64 {
    /// Packs the number into `bytes`, most significant byte first.
    fn encode_as_be_bytes(&self, bytes: &mut [u8])
        ensures
            final(bytes)@ == int_bytes(Primitive::I64, *self as int, ByteOrder::Big),
    {
        pack(Primitive::I64, bytes, Primitive::I64.to_unsigned(*self as i128), ByteOrder::Big);
    }
}

impl DecodeLE for i64 {
    /// Reads the number that fills `bytes`, least significant byte first.
    fn decode_from_le_bytes(bytes: &[u8]) -> (value: Self)
        ensures
            value == int_value(Primitive::I64, bytes@, ByteOrder::Little),
    {
        Primitive::I64.to_signed(unpack(Primitive::I64, bytes, ByteOrder::Little)) as i64
    }
}

impl DecodeBE for i64 {
    /// Reads the number that fills `bytes`, most significant byte first.
    fn decode_from_be_bytes(bytes: &[u8]) -> (value: Self)
        ensures
            value == int_value(Primitive::I64, bytes@, ByteOrder::Big),
    {
        Primitive::I64.to_signed(unpack(Primitive::I64, bytes, ByteOrder::Big)) as i64
    }
}

impl PackedSize for u128 {
    const PACKED_LEN: usize = 16;
}

impl EncodeLE for u128 {
    /// Packs the number into `bytes`, least significant byte first.
    fn encode_as_le_bytes(&self, bytes: &mut [u8])
        ensures
            final(bytes)@ == int_bytes(Primitive::U128, *self as int, ByteOrder::Little),
    {
        pack(Primitive::U128, bytes, *self, ByteOrder::Little);
    }
}

impl EncodeBE for u128 {
    /// Packs the number into `bytes`, most significant byte first.
    fn encode_as_be_bytes(&self, bytes: &mut [u8])
        ensures
            final(bytes)@ == int_bytes(Primitive::U128, *self as int, ByteOrder::Big),
    {
        pack(Primitive::U128, bytes, *self, ByteOrder::Big);
    }
}

impl DecodeLE for u128 {
    /// Reads the number that fills `bytes`, least significant byte first.
    fn decode_from_le_bytes(bytes: &[u8]) -> (value: Self)
        ensures
            value == int_value(Primitive::U128, bytes@, ByteOrder::Little),
    {
        unpack(Primitive::U128, bytes, ByteOrder::Little)
    }
}

impl DecodeBE for u128 {
    /// Reads the number that fills `bytes`, most significant byte first.
    fn decode_from_be_bytes(bytes: &[u8]) -> (value: Self)
        ensures
            value == int_value(Primitive::U128, bytes@, ByteOrder::Big),
    {
        unpack(Primitive::U128, bytes, ByteOrder::Big)
    }
}

impl PackedSize for i128 {
    const PACKED_LEN: usize = 16;
}

impl EncodeLE for i128 {
    /// Packs the number into `bytes`, least significant byte first.
    fn encode_as_le_bytes(&self, bytes: &mut [u8])
        ensures
            final(bytes)@ == int_bytes(Primitive::I128, *self as int, ByteOrder::Little),
    {
        pack(Primitive::I128, bytes, Primitive::I128.to_unsigned(*self), ByteOrder::Little);
    }
}

impl EncodeBE for i128 {
    /// Packs the number into `bytes`, most significant byte first.
    fn encode_as_be_bytes(&self, bytes: &mut [u8])
        ensures
            final(bytes)@ == int_bytes(Primitive::I128, *self as int, ByteOrder::Big),
    {
        pack(Primitive::I128, bytes, Primitive::I128.to_unsigned(*self), ByteOrder::Big);
    }
}

impl DecodeLE for i128 {
    /// Reads the number that fills `bytes`, least significant byte first.
    fn decode_from_le_bytes(bytes: &[u8]) -> (value: Self)
        ensures
            value == int_value(Primitive::I128, bytes@, ByteOrder::Little),
    {
        Primitive::I128.to_signed(unpack(Primitive::I128, bytes, ByteOrder::Little))
    }
}

impl DecodeBE for i128 {
    /// Reads the number that fills `bytes`, most significant byte first.
    fn decode_from_be_bytes(bytes: &[u8]) -> (value: Self)
        ensures
            value == int_value(Primitive::I128, bytes@, ByteOrder::Big),
    {
        Primitive::I128.to_signed(unpack(Primitive::I128, bytes, ByteOrder::Big))
    }
}

} // verus!
