//! The machine integers that a record can hold, and their byte encodings.

use crate::order::ByteOrder;
use crate::radix::{
    be_bytes, be_value, le_bytes, le_value, lemma_radix_values, lemma_value_bound, overwrite, radix,
    read_be, read_le, write_be, write_le,
};
use vstd::prelude::*;

verus! {

/// A machine integer type, by width and signedness.
#[derive(Clone, Copy, Debug, PartialEq, Eq, Hash, Structural)]
pub enum Primitive {
    U8,
    I8,
    U16,
    I16,
    U32,
    I32,
    U64,
    I64,
    U128,
    I128,
}

impl Primitive {
    /// The number of bytes that a value of this type occupies.
    pub open spec fn spec_width(self) -> nat {
        match self {
            Primitive::U8 | Primitive::I8 => 1,
            Primitive::U16 | Primitive::I16 => 2,
            Primitive::U32 | Primitive::I32 => 4,
            Primitive::U64 | Primitive::I64 => 8,
            Primitive::U128 | Primitive::I128 => 16,
        }
    }

    /// Whether the type has negative values.
    pub open spec fn spec_is_signed(self) -> bool {
        match self {
            Primitive::I8 | Primitive::I16 | Primitive::I32 | Primitive::I64 | Primitive::I128 => true,
            _ => false,
        }
    }

    /// The number of values of this type: `256` to the power of its width.
    pub open spec fn modulus(self) -> int {
        match self {
            Primitive::U8 | Primitive::I8 => 0x100,
            Primitive::U16 | Primitive::I16 => 0x1_0000,
            Primitive::U32 | Primitive::I32 => 0x1_0000_0000,
            Primitive::U64 | Primitive::I64 => 0x1_0000_0000_0000_0000,
            Primitive::U128 | Primitive::I128 => 0x1_0000_0000_0000_0000_0000_0000_0000_0000int,
        }
    }

    /// The modulus of a type is `256` to the power of its width.
    pub proof fn lemma_modulus(self)
        ensures
            self.modulus() == radix(self.spec_width()),
    {
        lemma_radix_values();
    }

    /// Whether `v` is a value of this type.
    pub open spec fn holds(self, v: int) -> bool {
        if self.spec_is_signed() {
            -self.modulus() <= 2 * v < self.modulus()
        } else {
            0 <= v < self.modulus()
        }
    }

    /// The two's complement of `v`: the unsigned number with the same bytes.
    pub open spec fn unsigned(self, v: int) -> nat {
        if v < 0 {
            (v + self.modulus()) as nat
        } else {
            v as nat
        }
    }

    /// The value of this type whose two's complement is `raw`.
    pub open spec fn number(self, raw: nat) -> int {
        if self.spec_is_signed() && 2 * raw >= self.modulus() {
            raw - self.modulus()
        } else {
            raw as int
        }
    }

    /// The number of bytes that a value of this type occupies.
    pub fn width(self) -> (w: usize)
        ensures
            w == self.spec_width(),
    {
        match self {
            Primitive::U8 | Primitive::I8 => 1,
            Primitive::U16 | Primitive::I16 => 2,
            Primitive::U32 | Primitive::I32 => 4,
            Primitive::U64 | Primitive::I64 => 8,
            Primitive::U128 | Primitive::I128 => 16,
        }
    }

    /// Whether the type has negative values.
    #[verifier::when_used_as_spec(spec_is_signed)]
    pub fn is_signed(self) -> (s: bool)
        ensures
            s == self.spec_is_signed(),
    {
        match self {
            Primitive::I8 | Primitive::I16 | Primitive::I32 | Primitive::I64 | Primitive::I128 => true,
            _ => false,
        }
    }

    /// The two's complement of the value `v` of this signed type.
    pub fn to_unsigned(self, v: i128) -> (raw: u128)
        requires
            self.spec_is_signed(),
            self.holds(v as int),
        ensures
            raw == self.unsigned(v as int),
            raw < self.modulus(),
    {
        if v >= 0 {
            v as u128
        } else {
            match self {
                Primitive::I8 => (v + 0x100) as u128,
                Primitive::I16 => (v + 0x1_0000) as u128,
                Primitive::I32 => (v + 0x1_0000_0000) as u128,
                Primitive::I64 => (v + 0x1_0000_0000_0000_0000) as u128,
                _ => (v - i128::MIN) as u128 + 0x8000_0000_0000_0000_0000_0000_0000_0000,
            }
        }
    }

    /// The value of this signed type whose two's complement is `raw`.
    pub fn to_signed(self, raw: u128) -> (v: i128)
        requires
            self.spec_is_signed(),
            raw < self.modulus(),
        ensures
            v == self.number(raw as nat),
            self.holds(v as int),
    {
        match self {
            Primitive::I8 => if raw >= 0x80 {
                raw as i128 - 0x100
            } else {
                raw as i128
            },
            Primitive::I16 => if raw >= 0x8000 {
                raw as i128 - 0x1_0000
            } else {
                raw as i128
            },
            Primitive::I32 => if raw >= 0x8000_0000 {
                raw as i128 - 0x1_0000_0000
            } else {
                raw as i128
            },
            Primitive::I64 => if raw >= 0x8000_0000_0000_0000 {
                raw as i128 - 0x1_0000_0000_0000_0000
            } else {
                raw as i128
            },
            _ => if raw >= 0x8000_0000_0000_0000_0000_0000_0000_0000 {
                (raw - 0x8000_0000_0000_0000_0000_0000_0000_0000) as i128 + i128::MIN
            } else {
                raw as i128
            },
        }
    }

    /// Writes the number of this type whose two's complement is `raw` to
    /// `dest[at..]` under `order`, and leaves the rest of `dest` as it was.
    pub fn write(self, dest: &mut [u8], at: usize, raw: u128, order: ByteOrder)
        requires
            at + self.spec_width() <= old(dest)@.len(),
        ensures
            final(dest)@ == overwrite(
                old(dest)@,
                at as int,
                raw_bytes(raw as nat, self.spec_width(), order),
            ),
    {
        match order {
            ByteOrder::Little => write_le(dest, at, raw, self.width()),
            _ => write_be(dest, at, raw, self.width()),
        }
    }

    /// Reads the two's complement of a number of this type from `src[at..]`
    /// under `order`.
    pub fn read(self, src: &[u8], at: usize, order: ByteOrder) -> (raw: u128)
        requires
            at + self.spec_width() <= src@.len(),
        ensures
            raw == raw_value(src@.subrange(at as int, at + self.spec_width()), order),
            raw < self.modulus(),
    {
        proof {
            lemma_value_bound(src@.subrange(at as int, at + self.spec_width()));
            self.lemma_modulus();
        }
        match order {
            ByteOrder::Little => read_le(src, at, self.width()),
            _ => read_be(src, at, self.width()),
        }
    }
}

/// The `n` low bytes of `raw` under `order`; `Mixed` stands for big-endian.
pub open spec fn raw_bytes(raw: nat, n: nat, order: ByteOrder) -> Seq<u8> {
    match order {
        ByteOrder::Little => le_bytes(raw, n),
        _ => be_bytes(raw, n),
    }
}

/// The number that `bytes` denote under `order`; `Mixed` stands for
/// big-endian.
pub open spec fn raw_value(bytes: Seq<u8>, order: ByteOrder) -> nat {
    match order {
        ByteOrder::Little => le_value(bytes),
        _ => be_value(bytes),
    }
}

/// The bytes of the value `v` of type `p` under `order`: those of its two's
/// complement. A number of one byte is the same under every order; `Mixed`
/// stands for big-endian.
pub open spec fn int_bytes(p: Primitive, v: int, order: ByteOrder) -> Seq<u8> {
    raw_bytes(p.unsigned(v), p.spec_width(), order)
}

/// The value of type `p` that `bytes` hold under `order`. `Mixed` stands for
/// big-endian.
pub open spec fn int_value(p: Primitive, bytes: Seq<u8>, order: ByteOrder) -> int {
    p.number(raw_value(bytes, order))
}

} // verus!
