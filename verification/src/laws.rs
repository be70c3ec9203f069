//! What holds of the wire format for every schema, every value and every
//! byte order.

use crate::codec::{
    admission, decoding, encoding, lemma_encoding_len, lemma_record_encoding_len, record_decoding,
    record_encoding,
};
use crate::layout::{
    effective_order, field_offset, lemma_field_offsets, record_len, record_mixed_ready, resolve,
    Layout, Slot,
};
use crate::order::{ByteOrder, CodecError};
use crate::primitive::{int_bytes, int_value, Primitive};
use crate::radix::{
    be_bytes, le_bytes, lemma_be_bytes_of_value, lemma_be_bytes_reverse_le,
    lemma_be_value_of_bytes, lemma_le_bytes_of_value, lemma_le_value_of_bytes, lemma_value_bound,
};
use crate::value::{record_conforms, Datum};
use vstd::prelude::*;

verus! {

/// A number that is written and read back under the same order is the number
/// that was written.
pub proof fn lemma_int_round_trip(p: Primitive, v: int, order: ByteOrder)
    requires
        p.holds(v),
    ensures
        int_value(p, int_bytes(p, v, order), order) == v,
{
    p.lemma_modulus();
    lemma_le_value_of_bytes(p.unsigned(v), p.spec_width());
    lemma_be_value_of_bytes(p.unsigned(v), p.spec_width());
}

/// Round trip: a value that is encoded and decoded under the same byte order
/// is the value that was encoded, for every type and every order.
pub proof fn lemma_round_trip(layout: Layout, datum: Datum, order: ByteOrder)
    requires
        datum.conforms(layout),
    ensures
        decoding(layout, encoding(layout, datum, order), order) == datum,
    decreases layout,
{
    match (layout, datum) {
        (Layout::Primitive(p), Datum::Int(_, v)) => {
            lemma_int_round_trip(p, v, order);
        },
        (Layout::Record(slots), Datum::Record(items)) => {
            lemma_record_round_trip(slots, items, order);
        },
        _ => {},
    }
}

/// Round trip for records: the field values that are encoded and decoded
/// under the same mode are the field values that were encoded.
pub proof fn lemma_record_round_trip(slots: Seq<Slot>, items: Seq<Datum>, mode: ByteOrder)
    requires
        record_conforms(items, slots),
    ensures
        record_decoding(slots, record_encoding(slots, items, mode), mode) == items,
    decreases slots,
{
    if slots.len() == 0 {
        assert(items =~= Seq::<Datum>::empty());
    } else {
        let order = effective_order(mode, slots.last());
        let head = record_encoding(slots.drop_last(), items.drop_last(), mode);
        let tail = encoding(slots.last().layout, items.last(), order);
        let bytes = head + tail;
        assert(items.last() == items[items.len() - 1]);
        lemma_record_encoding_len(slots.drop_last(), items.drop_last(), mode);
        lemma_encoding_len(slots.last().layout, items.last(), order);
        lemma_record_round_trip(slots.drop_last(), items.drop_last(), mode);
        lemma_round_trip(slots.last().layout, items.last(), order);
        assert(bytes.subrange(0, head.len() as int) =~= head);
        assert(bytes.subrange(head.len() as int, (head.len() + tail.len()) as int) =~= tail);
        assert(items.drop_last().push(items.last()) =~= items);
    }
}

/// What is decoded from a buffer of the packed size is a value of the type,
/// and encoding it under the same order gives the buffer back.
pub proof fn lemma_decoded_encodes_back(layout: Layout, bytes: Seq<u8>, order: ByteOrder)
    requires
        bytes.len() == layout.packed_len(),
    ensures
        decoding(layout, bytes, order).conforms(layout),
        encoding(layout, decoding(layout, bytes, order), order) == bytes,
    decreases layout,
{
    match layout {
        Layout::Primitive(p) => {
            p.lemma_modulus();
            lemma_value_bound(bytes);
            lemma_le_bytes_of_value(bytes);
            lemma_be_bytes_of_value(bytes);
        },
        Layout::Bytes(_) => {},
        Layout::Record(slots) => {
            lemma_record_decoded_encodes_back(slots, bytes, order);
        },
    }
}

/// What is decoded from a buffer of a record's packed size are values for
/// the record's fields, and encoding them under the same mode gives the
/// buffer back.
pub proof fn lemma_record_decoded_encodes_back(slots: Seq<Slot>, bytes: Seq<u8>, mode: ByteOrder)
    requires
        bytes.len() == record_len(slots),
    ensures
        record_conforms(record_decoding(slots, bytes, mode), slots),
        record_encoding(slots, record_decoding(slots, bytes, mode), mode) == bytes,
    decreases slots,
{
    if slots.len() == 0 {
        assert(bytes =~= Seq::<u8>::empty());
    } else {
        let order = effective_order(mode, slots.last());
        let cut = record_len(slots.drop_last()) as int;
        let head = bytes.subrange(0, cut);
        let tail = bytes.subrange(cut, cut + slots.last().layout.packed_len());
        let items = record_decoding(slots, bytes, mode);
        lemma_record_decoded_encodes_back(slots.drop_last(), head, mode);
        lemma_decoded_encodes_back(slots.last().layout, tail, order);
        assert(items.drop_last() =~= record_decoding(slots.drop_last(), head, mode));
        assert(head + tail =~= bytes);
        assert forall|i: int| 0 <= i < items.len() implies (#[trigger] items[i]).conforms(
            slots[i].layout,
        ) by {
            if i < items.len() - 1 {
                assert(items[i] == items.drop_last()[i]);
                assert(slots[i] == slots.drop_last()[i]);
            }
        }
    }
}

/// Size additivity: an empty record takes no bytes, a nested record takes
/// what its fields take, and one more field adds its own packed size.
pub proof fn lemma_size_additive(slots: Seq<Slot>, slot: Slot)
    ensures
        record_len(Seq::<Slot>::empty()) == 0,
        Layout::Record(slots).packed_len() == record_len(slots),
        record_len(slots.push(slot)) == record_len(slots) + slot.layout.packed_len(),
{
    assert(slots.push(slot).drop_last() =~= slots);
}

/// Offset determinism: under every mode the bytes of field `i` are the bytes
/// of the record from where the fields before it end to where the field
/// itself ends. The ranges depend on the schema alone.
pub proof fn lemma_field_bytes_in_range(
    slots: Seq<Slot>,
    items: Seq<Datum>,
    mode: ByteOrder,
    i: int,
)
    requires
        record_conforms(items, slots),
        0 <= i < slots.len(),
    ensures
        field_offset(slots, i + 1) == field_offset(slots, i) + slots[i].layout.packed_len(),
        field_offset(slots, i + 1) <= record_len(slots) == record_encoding(slots, items, mode).len(),
        record_encoding(slots, items, mode).subrange(
            field_offset(slots, i) as int,
            field_offset(slots, i + 1) as int,
        ) == encoding(slots[i].layout, items[i], effective_order(mode, slots[i])),
    decreases slots,
{
    let order = effective_order(mode, slots.last());
    let head = record_encoding(slots.drop_last(), items.drop_last(), mode);
    let tail = encoding(slots.last().layout, items.last(), order);
    lemma_field_offsets(slots, i);
    lemma_record_encoding_len(slots, items, mode);
    lemma_record_encoding_len(slots.drop_last(), items.drop_last(), mode);
    lemma_encoding_len(slots.last().layout, items.last(), order);
    if i == slots.len() - 1 {
        assert(slots.take(i) =~= slots.drop_last());
        assert((head + tail).subrange(head.len() as int, (head.len() + tail.len()) as int) =~= tail);
    } else {
        lemma_field_bytes_in_range(slots.drop_last(), items.drop_last(), mode, i);
        lemma_field_offsets(slots.drop_last(), i);
        assert(slots.drop_last().take(i) =~= slots.take(i));
        assert(slots.drop_last().take(i + 1) =~= slots.take(i + 1));
        let begin = field_offset(slots, i) as int;
        let end = field_offset(slots, i + 1) as int;
        assert((head + tail).subrange(begin, end) =~= head.subrange(begin, end));
    }
}

/// Each field is read from its own byte range: under every mode field `i` of
/// what is decoded is what the bytes of its range hold.
pub proof fn lemma_field_read_from_range(slots: Seq<Slot>, bytes: Seq<u8>, mode: ByteOrder, i: int)
    requires
        bytes.len() == record_len(slots),
        0 <= i < slots.len(),
    ensures
        record_decoding(slots, bytes, mode).len() == slots.len(),
        record_decoding(slots, bytes, mode)[i] == decoding(
            slots[i].layout,
            bytes.subrange(field_offset(slots, i) as int, field_offset(slots, i + 1) as int),
            effective_order(mode, slots[i]),
        ),
    decreases slots,
{
    let cut = record_len(slots.drop_last()) as int;
    lemma_field_offsets(slots, i);
    lemma_record_decoded_encodes_back(slots, bytes, mode);
    if i == slots.len() - 1 {
        assert(slots.take(i) =~= slots.drop_last());
    } else {
        let head = bytes.subrange(0, cut);
        lemma_field_read_from_range(slots.drop_last(), head, mode, i);
        lemma_field_offsets(slots.drop_last(), i);
        assert(slots.drop_last().take(i) =~= slots.take(i));
        assert(slots.drop_last().take(i + 1) =~= slots.take(i + 1));
        let begin = field_offset(slots, i) as int;
        let end = field_offset(slots, i + 1) as int;
        assert(head.subrange(begin, end) =~= bytes.subrange(begin, end));
    }
}

/// A number of one byte is the same byte under every order.
pub proof fn lemma_single_byte_any_order(p: Primitive, v: int, a: ByteOrder, b: ByteOrder)
    requires
        p.spec_width() == 1,
    ensures
        int_bytes(p, v, a) == int_bytes(p, v, b),
{
    reveal_with_fuel(le_bytes, 2);
    reveal_with_fuel(be_bytes, 2);
    assert(le_bytes(p.unsigned(v), 1) =~= be_bytes(p.unsigned(v), 1));
}

/// Order independence: a field that is a byte array or a single byte has the
/// same bytes under little-endian, big-endian and mixed mode, whatever the
/// field declares.
pub proof fn lemma_order_independent(slot: Slot, datum: Datum, a: ByteOrder, b: ByteOrder)
    requires
        slot.layout is Bytes || (slot.layout matches Layout::Primitive(p) && p.spec_width() == 1),
    ensures
        encoding(slot.layout, datum, effective_order(a, slot)) == encoding(
            slot.layout,
            datum,
            effective_order(b, slot),
        ),
{
    match (slot.layout, datum) {
        (Layout::Primitive(p), Datum::Int(_, v)) => {
            lemma_single_byte_any_order(p, v, effective_order(a, slot), effective_order(b, slot));
        },
        _ => {},
    }
}

/// The empty record takes no bytes, encodes to nothing under every mode, and
/// is admitted by the empty buffer and by no other.
pub proof fn lemma_empty_record(mode: ByteOrder, len: nat)
    ensures
        record_len(Seq::<Slot>::empty()) == 0,
        record_encoding(Seq::<Slot>::empty(), Seq::<Datum>::empty(), mode) == Seq::<u8>::empty(),
        record_decoding(Seq::<Slot>::empty(), Seq::<u8>::empty(), mode) == Seq::<Datum>::empty(),
        admission(Seq::<Slot>::empty(), mode, len) is Ok <==> len == 0,
{
}

/// A buffer whose length is not the packed size is refused as a size
/// mismatch, for every schema and under every mode.
pub proof fn lemma_wrong_length_refused(slots: Seq<Slot>, mode: ByteOrder, len: nat)
    requires
        len != record_len(slots),
    ensures
        admission(slots, mode, len) == Err::<(), CodecError>(CodecError::SizeMismatch),
{
}

/// The big-endian bytes of a number are its little-endian bytes in reverse.
pub proof fn lemma_big_is_little_reversed(p: Primitive, v: int)
    ensures
        int_bytes(p, v, ByteOrder::Big) == int_bytes(p, v, ByteOrder::Little).reverse(),
{
    lemma_be_bytes_reverse_le(p.unsigned(v), p.spec_width());
}

/// Mixed mode lays a field out in the order that the field resolves to, and
/// a field is ready for mixed mode exactly when it resolves to an order and,
/// where that is the mixed layout of a nested record, the nested record is
/// ready too. Little-endian and big-endian mode ignore what a field declares.
pub proof fn lemma_resolved_order(slot: Slot)
    ensures
        resolve(slot) matches Ok(order) ==> order == effective_order(ByteOrder::Mixed, slot),
        slot.mixed_ready() <==> resolve(slot) is Ok && (slot.order is None && slot.layout is Record
            ==> record_mixed_ready(slot.layout->Record_0)),
        effective_order(ByteOrder::Little, slot) == ByteOrder::Little,
        effective_order(ByteOrder::Big, slot) == ByteOrder::Big,
{
}

/// Under little-endian and big-endian mode the bytes of a record do not
/// depend on the orders that its fields declare.
pub proof fn lemma_declared_order_ignored(
    a: Seq<Slot>,
    b: Seq<Slot>,
    items: Seq<Datum>,
    mode: ByteOrder,
)
    requires
        mode != ByteOrder::Mixed,
        a.len() == b.len(),
        forall|i: int| 0 <= i < a.len() ==> (#[trigger] a[i]).layout == b[i].layout,
    ensures
        record_encoding(a, items, mode) == record_encoding(b, items, mode),
    decreases a,
{
    if a.len() > 0 {
        assert(a.last().layout == a[a.len() - 1].layout);
        assert forall|i: int| 0 <= i < a.drop_last().len() implies (#[trigger] a.drop_last()[i]).layout
            == b.drop_last()[i].layout by {
            assert(a.drop_last()[i] == a[i]);
            assert(b.drop_last()[i] == b[i]);
        }
        lemma_declared_order_ignored(a.drop_last(), b.drop_last(), items.drop_last(), mode);
    }
}

} // verus!
