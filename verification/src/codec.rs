//! The wire format of records, and the functions that write and read it.
//!
//! A record occupies exactly its packed size. Its fields lie one after the
//! other in declaration order, with no padding, no length prefix and no gap.

use crate::layout::{
    effective_order, field_offset, lemma_field_offsets, record_len, record_mixed_ready, Layout,
    Slot,
};
use crate::order::{ByteOrder, CodecError};
use crate::primitive::{int_bytes, int_value};
use crate::radix::{lemma_bytes_len, overwrite, read_bytes, write_bytes};
use crate::schema::{resolve_order, FieldDescriptor, RecordSchema, TypeRef};
use crate::value::{data_of, record_conforms, Datum, Value};
use vstd::pervasive::unreached;
use vstd::prelude::*;

verus! {

/// The bytes of the value `datum` of type `layout` under `order`.
pub open spec fn encoding(layout: Layout, datum: Datum, order: ByteOrder) -> Seq<u8>
    decreases layout,
{
    match (layout, datum) {
        (Layout::Primitive(p), Datum::Int(_, v)) => int_bytes(p, v, order),
        (Layout::Bytes(_), Datum::Bytes(bytes)) => bytes,
        (Layout::Record(slots), Datum::Record(items)) => record_encoding(slots, items, order),
        _ => Seq::empty(),
    }
}

/// The bytes of a record with the fields `slots` and the field values
/// `items` under `mode`: the bytes of its fields, one after the other, each
/// in its effective order.
pub open spec fn record_encoding(slots: Seq<Slot>, items: Seq<Datum>, mode: ByteOrder) -> Seq<u8>
    decreases slots,
{
    if slots.len() == 0 {
        Seq::empty()
    } else {
        record_encoding(slots.drop_last(), items.drop_last(), mode) + encoding(
            slots.last().layout,
            items.last(),
            effective_order(mode, slots.last()),
        )
    }
}

/// The value of type `layout` that `bytes` hold under `order`.
pub open spec fn decoding(layout: Layout, bytes: Seq<u8>, order: ByteOrder) -> Datum
    decreases layout,
{
    match layout {
        Layout::Primitive(p) => Datum::Int(p, int_value(p, bytes, order)),
        Layout::Bytes(_) => Datum::Bytes(bytes),
        Layout::Record(slots) => Datum::Record(record_decoding(slots, bytes, order)),
    }
}

/// The field values that `bytes` hold for a record with the fields `slots`
/// under `mode`: each field is read from its own byte range.
pub open spec fn record_decoding(slots: Seq<Slot>, bytes: Seq<u8>, mode: ByteOrder) -> Seq<Datum>
    decreases slots,
{
    if slots.len() == 0 {
        Seq::empty()
    } else {
        let cut = record_len(slots.drop_last()) as int;
        record_decoding(slots.drop_last(), bytes.subrange(0, cut), mode).push(
            decoding(
                slots.last().layout,
                bytes.subrange(cut, cut + slots.last().layout.packed_len()),
                effective_order(mode, slots.last()),
            ),
        )
    }
}

/// Whether a buffer of `len` bytes can hold a record with the fields `slots`
/// under `mode`, and if not, why: the length has to be the packed size, and
/// mixed mode has to know an order for every field that needs one.
pub open spec fn admission(slots: Seq<Slot>, mode: ByteOrder, len: nat) -> Result<(), CodecError> {
    if len != record_len(slots) {
        Err(CodecError::SizeMismatch)
    } else if mode == ByteOrder::Mixed && !record_mixed_ready(slots) {
        Err(CodecError::MissingOrderAnnotation)
    } else {
        Ok(())
    }
}

/// A value takes exactly the packed size of its type.
pub proof fn lemma_encoding_len(layout: Layout, datum: Datum, order: ByteOrder)
    requires
        datum.conforms(layout),
    ensures
        encoding(layout, datum, order).len() == layout.packed_len(),
    decreases layout,
{
    match (layout, datum) {
        (Layout::Primitive(p), Datum::Int(_, v)) => {
            lemma_bytes_len(p.unsigned(v), p.spec_width());
        },
        (Layout::Record(slots), Datum::Record(items)) => {
            lemma_record_encoding_len(slots, items, order);
        },
        _ => {},
    }
}

/// A record takes exactly its packed size.
pub proof fn lemma_record_encoding_len(slots: Seq<Slot>, items: Seq<Datum>, mode: ByteOrder)
    requires
        record_conforms(items, slots),
    ensures
        record_encoding(slots, items, mode).len() == record_len(slots),
    decreases slots,
{
    if slots.len() > 0 {
        assert(items.last() == items[items.len() - 1]);
        lemma_record_encoding_len(slots.drop_last(), items.drop_last(), mode);
        lemma_encoding_len(
            slots.last().layout,
            items.last(),
            effective_order(mode, slots.last()),
        );
    }
}

/// Writing `a` and then `b` right behind it is writing `a + b`.
proof fn lemma_overwrite_next(buf: Seq<u8>, at: int, a: Seq<u8>, b: Seq<u8>)
    requires
        0 <= at,
        at + a.len() + b.len() <= buf.len(),
    ensures
        overwrite(overwrite(buf, at, a), at + a.len(), b) == overwrite(buf, at, a + b),
{
    assert(overwrite(overwrite(buf, at, a), at + a.len(), b) =~= overwrite(buf, at, a + b));
}

/// The order in which `field` is laid out when its record is laid out in
/// `mode`: `mode` itself, or under mixed mode what the field resolves to. A
/// field that resolves to nothing is only met in a record that is not ready
/// for mixed mode; it is laid out as the model has it.
fn order_of(mode: ByteOrder, field: &FieldDescriptor) -> (order: ByteOrder)
    ensures
        order == effective_order(mode, field@),
{
    match mode {
        ByteOrder::Mixed => match resolve_order(field) {
            Ok(order) => order,
            Err(_) => ByteOrder::Mixed,
        },
        _ => mode,
    }
}

/// Writes `value` to `dest[at..]` under `order` and leaves the rest of `dest`
/// as it was.
fn encode_field(ty: &TypeRef, value: &Value, dest: &mut [u8], at: usize, order: ByteOrder)
    requires
        ty.wf(),
        value@.conforms(ty@),
        at + ty@.packed_len() <= old(dest)@.len(),
    ensures
        final(dest)@ == overwrite(old(dest)@, at as int, encoding(ty@, value@, order)),
    decreases ty@,
{
    match (ty, value) {
        (TypeRef::Primitive(p), _) => {
            p.write(dest, at, value.unsigned(), order);
        },
        (TypeRef::FixedByteArray(_), Value::Bytes(bytes)) => {
            write_bytes(dest, at, bytes.as_slice());
        },
        (TypeRef::Composite(schema), Value::Record(items)) => {
            encode_record(schema, items, dest, at, order);
        },
        _ => unreached(),
    }
}

/// The offset walker: writes the fields of a record to `dest[at..]`, one
/// after the other in declaration order, and leaves the rest of `dest` as it
/// was.
fn encode_record(
    schema: &RecordSchema,
    items: &Vec<Value>,
    dest: &mut [u8],
    at: usize,
    mode: ByteOrder,
)
    requires
        schema.wf(),
        record_conforms(data_of(items@), schema@),
        at + record_len(schema@) <= old(dest)@.len(),
    ensures
        final(dest)@ == overwrite(
            old(dest)@,
            at as int,
            record_encoding(schema@, data_of(items@), mode),
        ),
    decreases schema@,
{
    let ghost prior = dest@;
    let ghost slots = schema@;
    let ghost data = data_of(items@);
    // The length of a slice fits in a `usize`.
    assert(prior.len() == dest.len());
    let count: usize = schema.field_count();
    let mut cursor: usize = at;
    let mut i: usize = 0;
    proof {
        assert(slots.take(0) =~= Seq::<Slot>::empty());
        assert(dest@ =~= overwrite(prior, at as int, Seq::<u8>::empty()));
    }
    while i < count
        invariant
            i <= count == slots.len(),
            slots == schema@,
            data == data_of(items@),
            schema.wf(),
            record_conforms(data, slots),
            at + record_len(slots) <= prior.len() <= usize::MAX,
            dest@.len() == prior.len(),
            cursor == at + field_offset(slots, i as int),
            dest@ == overwrite(
                prior,
                at as int,
                record_encoding(slots.take(i as int), data.take(i as int), mode),
            ),
        decreases count - i,
    {
        let field = schema.field(i);
        let order = order_of(mode, field);
        let ghost done = record_encoding(slots.take(i as int), data.take(i as int), mode);
        let ghost next = encoding(slots[i as int].layout, data[i as int], order);
        proof {
            lemma_field_offsets(slots, i as int);
            lemma_record_encoding_len(slots.take(i as int), data.take(i as int), mode);
            lemma_encoding_len(slots[i as int].layout, data[i as int], order);
            assert(data[i as int] == items@[i as int]@);
        }
        encode_field(&field.type_ref, &items[i], dest, cursor, order);
        cursor = cursor + field.type_ref.packed_size();
        proof {
            lemma_overwrite_next(prior, at as int, done, next);
            assert(slots.take(i + 1).drop_last() =~= slots.take(i as int));
            assert(data.take(i + 1).drop_last() =~= data.take(i as int));
        }
        i += 1;
    }
    proof {
        assert(slots.take(i as int) =~= slots);
        assert(data.take(i as int) =~= data);
    }
}

/// Reads a value of type `ty` from `src[at..]` under `order`.
fn decode_field(ty: &TypeRef, src: &[u8], at: usize, order: ByteOrder) -> (value: Value)
    requires
        ty.wf(),
        at + ty@.packed_len() <= src@.len(),
    ensures
        value@ == decoding(ty@, src@.subrange(at as int, at + ty@.packed_len()), order),
        value@.conforms(ty@),
    decreases ty@,
{
    match ty {
        TypeRef::Primitive(p) => {
            Value::from_unsigned(*p, p.read(src, at, order))
        },
        TypeRef::FixedByteArray(n) => Value::Bytes(read_bytes(src, at, *n)),
        TypeRef::Composite(schema) => Value::Record(decode_record(schema, src, at, order)),
    }
}

/// The offset walker: reads the fields of a record from `src[at..]`, one
/// after the other in declaration order.
fn decode_record(schema: &RecordSchema, src: &[u8], at: usize, mode: ByteOrder) -> (items: Vec<
    Value,
>)
    requires
        schema.wf(),
        at + record_len(schema@) <= src@.len(),
    ensures
        data_of(items@) == record_decoding(
            schema@,
            src@.subrange(at as int, at + record_len(schema@)),
            mode,
        ),
        record_conforms(data_of(items@), schema@),
    decreases schema@,
{
    let ghost slots = schema@;
    let ghost bytes = src@.subrange(at as int, at + record_len(slots));
    // The length of a slice fits in a `usize`.
    assert(src@.len() == src.len());
    let count: usize = schema.field_count();
    let mut items: Vec<Value> = Vec::new();
    let mut cursor: usize = at;
    let mut i: usize = 0;
    proof {
        assert(slots.take(0) =~= Seq::<Slot>::empty());
        assert(data_of(items@) =~= Seq::<Datum>::empty());
    }
    while i < count
        invariant
            i <= count == slots.len(),
            slots == schema@,
            schema.wf(),
            at + record_len(slots) <= src@.len() <= usize::MAX,
            bytes == src@.subrange(at as int, at + record_len(slots)),
            cursor == at + field_offset(slots, i as int),
            field_offset(slots, i as int) <= record_len(slots),
            items@.len() == i,
            data_of(items@) == record_decoding(
                slots.take(i as int),
                bytes.subrange(0, field_offset(slots, i as int) as int),
                mode,
            ),
            forall|j: int| 0 <= j < i ==> (#[trigger] items@[j])@.conforms(slots[j].layout),
        decreases count - i,
    {
        let field = schema.field(i);
        let order = order_of(mode, field);
        let ghost before = data_of(items@);
        proof {
            lemma_field_offsets(slots, i as int);
        }
        let value = decode_field(&field.type_ref, src, cursor, order);
        items.push(value);
        cursor = cursor + field.type_ref.packed_size();
        proof {
            let begin = field_offset(slots, i as int) as int;
            let end = field_offset(slots, i + 1) as int;
            let upto = bytes.subrange(0, end);
            assert(slots.take(i + 1).drop_last() =~= slots.take(i as int));
            assert(upto.subrange(0, begin) =~= bytes.subrange(0, begin));
            assert(upto.subrange(begin, end) =~= src@.subrange(at + begin, at + end));
            assert(data_of(items@) =~= before.push(items@[i as int]@));
        }
        i += 1;
    }
    proof {
        assert(slots.take(i as int) =~= slots);
        assert(bytes.subrange(0, record_len(slots) as int) =~= bytes);
    }
    items
}

/// Writes the record `value` of the type `schema` to `dest` under `mode`.
///
/// `dest` has to be exactly as long as the packed size of the record, and
/// under `Mixed` the schema has to be ready for mixed mode. Otherwise nothing
/// is written and the error says which of the two failed; a wrong length is
/// reported under every mode.
pub fn encode(schema: &RecordSchema, value: &Value, dest: &mut [u8], mode: ByteOrder) -> (done:
    Result<(), CodecError>)
    requires
        schema.wf(),
        value@.conforms(Layout::Record(schema@)),
    ensures
        done == admission(schema@, mode, old(dest)@.len()),
        done is Ok ==> final(dest)@ == encoding(Layout::Record(schema@), value@, mode),
        done is Err ==> final(dest)@ == old(dest)@,
{
    if dest.len() != schema.packed_size() {
        return Err(CodecError::SizeMismatch);
    }
    if mode == ByteOrder::Mixed && !schema.supports_mixed() {
        return Err(CodecError::MissingOrderAnnotation);
    }
    match value {
        Value::Record(items) => {
            encode_record(schema, items, dest, 0, mode);
            proof {
                lemma_record_encoding_len(schema@, data_of(items@), mode);
                assert(dest@ =~= record_encoding(schema@, data_of(items@), mode));
            }
            Ok(())
        },
        _ => unreached(),
    }
}

/// Reads a record of the type `schema` from `src` under `mode`.
///
/// `src` has to be exactly as long as the packed size of the record, and
/// under `Mixed` the schema has to be ready for mixed mode. Otherwise no
/// value is returned and the error says which of the two failed; a wrong
/// length is reported under every mode.
pub fn decode(schema: &RecordSchema, src: &[u8], mode: ByteOrder) -> (got: Result<
    Value,
    CodecError,
>)
    requires
        schema.wf(),
    ensures
        match got {
            Ok(value) => {
                &&& admission(schema@, mode, src@.len()) is Ok
                &&& value@ == decoding(Layout::Record(schema@), src@, mode)
                &&& value@.conforms(Layout::Record(schema@))
            },
            Err(e) => admission(schema@, mode, src@.len()) == Err::<(), CodecError>(e),
        },
{
    if src.len() != schema.packed_size() {
        return Err(CodecError::SizeMismatch);
    }
    if mode == ByteOrder::Mixed && !schema.supports_mixed() {
        return Err(CodecError::MissingOrderAnnotation);
    }
    let items = decode_record(schema, src, 0, mode);
    proof {
        assert(src@.subrange(0, record_len(schema@) as int) =~= src@);
    }
    Ok(Value::Record(items))
}

/// Writes the record `value` to `dest` with every number in little-endian
/// order.
pub fn encode_le(schema: &RecordSchema, value: &Value, dest: &mut [u8]) -> (done: Result<
    (),
    CodecError,
>)
    requires
        schema.wf(),
        value@.conforms(Layout::Record(schema@)),
    ensures
        done == admission(schema@, ByteOrder::Little, old(dest)@.len()),
        done is Ok ==> final(dest)@ == encoding(
            Layout::Record(schema@),
            value@,
            ByteOrder::Little,
        ),
        done is Err ==> final(dest)@ == old(dest)@,
{
    encode(schema, value, dest, ByteOrder::Little)
}

/// Writes the record `value` to `dest` with every number in big-endian order.
pub fn encode_be(schema: &RecordSchema, value: &Value, dest: &mut [u8]) -> (done: Result<
    (),
    CodecError,
>)
    requires
        schema.wf(),
        value@.conforms(Layout::Record(schema@)),
    ensures
        done == admission(schema@, ByteOrder::Big, old(dest)@.len()),
        done is Ok ==> final(dest)@ == encoding(Layout::Record(schema@), value@, ByteOrder::Big),
        done is Err ==> final(dest)@ == old(dest)@,
{
    encode(schema, value, dest, ByteOrder::Big)
}

/// Writes the record `value` to `dest` with every field in the order that it
/// declares, and a field that declares none in the mixed layout of its type.
pub fn encode_mixed(schema: &RecordSchema, value: &Value, dest: &mut [u8]) -> (done: Result<
    (),
    CodecError,
>)
    requires
        schema.wf(),
        value@.conforms(Layout::Record(schema@)),
    ensures
        done == admission(schema@, ByteOrder::Mixed, old(dest)@.len()),
        done is Ok ==> final(dest)@ == encoding(
            Layout::Record(schema@),
            value@,
            ByteOrder::Mixed,
        ),
        done is Err ==> final(dest)@ == old(dest)@,
{
    encode(schema, value, dest, ByteOrder::Mixed)
}

/// Reads a record from `src` with every number in little-endian order.
pub fn decode_le(schema: &RecordSchema, src: &[u8]) -> (got: Result<Value, CodecError>)
    requires
        schema.wf(),
    ensures
        match got {
            Ok(value) => {
                &&& admission(schema@, ByteOrder::Little, src@.len()) is Ok
                &&& value@ == decoding(Layout::Record(schema@), src@, ByteOrder::Little)
                &&& value@.conforms(Layout::Record(schema@))
            },
            Err(e) => admission(schema@, ByteOrder::Little, src@.len()) == Err::<(), CodecError>(e),
        },
{
    decode(schema, src, ByteOrder::Little)
}

/// Reads a record from `src` with every number in big-endian order.
pub fn decode_be(schema: &RecordSchema, src: &[u8]) -> (got: Result<Value, CodecError>)
    requires
        schema.wf(),
    ensures
        match got {
            Ok(value) => {
                &&& admission(schema@, ByteOrder::Big, src@.len()) is Ok
                &&& value@ == decoding(Layout::Record(schema@), src@, ByteOrder::Big)
                &&& value@.conforms(Layout::Record(schema@))
            },
            Err(e) => admission(schema@, ByteOrder::Big, src@.len()) == Err::<(), CodecError>(e),
        },
{
    decode(schema, src, ByteOrder::Big)
}

/// Reads a record from `src` with every field in the order that it declares,
/// and a field that declares none in the mixed layout of its type.
pub fn decode_mixed(schema: &RecordSchema, src: &[u8]) -> (got: Result<Value, CodecError>)
    requires
        schema.wf(),
    ensures
        match got {
            Ok(value) => {
                &&& admission(schema@, ByteOrder::Mixed, src@.len()) is Ok
                &&& value@ == decoding(Layout::Record(schema@), src@, ByteOrder::Mixed)
                &&& value@.conforms(Layout::Record(schema@))
            },
            Err(e) => admission(schema@, ByteOrder::Mixed, src@.len()) == Err::<(), CodecError>(e),
        },
{
    decode(schema, src, ByteOrder::Mixed)
}

} // verus!
