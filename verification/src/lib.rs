//! Codecs for fixed-size binary records.
//!
//! A record is described by a [`RecordSchema`]: the ordered list of its
//! fields. From the schema alone the library knows how many bytes the record
//! occupies and which byte range belongs to which field, and it encodes and
//! decodes record values under a little-endian, a big-endian or a per-field
//! mixed byte order. Nothing is allocated for encoding, nothing is padded,
//! and a buffer of the wrong length is refused before a byte is touched.
//!
//! ```
//! use endian_codec::{
//!     decode_mixed, encode_mixed, ByteOrder, FieldDescriptor, Primitive, RecordSchema,
//!     TypeKind, TypeRef, Value,
//! };
//!
//! let field = |primitive, order| FieldDescriptor {
//!     type_ref: TypeRef::Primitive(primitive),
//!     order_override: Some(order),
//! };
//! let schema = RecordSchema::new_mixed(
//!     TypeKind::Struct,
//!     vec![field(Primitive::U16, ByteOrder::Little), field(Primitive::I32, ByteOrder::Big)],
//! )
//! .unwrap();
//! let value = Value::Record(vec![Value::U16(0x0102), Value::I32(-2)]);
//!
//! let mut buffer = [0; 6];
//! encode_mixed(&schema, &value, &mut buffer).unwrap();
//! assert_eq!(buffer, [0x02, 0x01, 0xFF, 0xFF, 0xFF, 0xFE]);
//! assert_eq!(decode_mixed(&schema, &buffer), Ok(value));
//! ```
//!
//! The traits [`PackedSize`], [`EncodeLE`], [`DecodeLE`] and their big-endian
//! and mixed-endian counterparts give the same wire format to the record
//! types of a program; the machine integers and the byte arrays implement
//! them here.
//!
//! Every function is verified against a mathematical model of the wire
//! format: [`layout`] models the record types, [`value::Datum`] the values,
//! [`codec`] the bytes, and [`laws`] states what holds of the format as a
//! whole.

pub mod arrays;
pub mod codec;
pub mod integers;
pub mod laws;
pub mod layout;
pub mod order;
pub mod primitive;
pub mod radix;
pub mod schema;
pub mod traits;
pub mod value;

pub use crate::codec::{
    decode, decode_be, decode_le, decode_mixed, encode, encode_be, encode_le, encode_mixed,
};
pub use crate::order::{ByteOrder, CodecError};
pub use crate::primitive::Primitive;
pub use crate::schema::{resolve_order, FieldDescriptor, RecordSchema, TypeKind, TypeRef};
pub use crate::traits::{DecodeBE, DecodeLE, DecodeME, EncodeBE, EncodeLE, EncodeME, PackedSize};
pub use crate::value::Value;
