//! The mathematical model of record types: what a record's fields are,
//! where their bytes lie, and which byte order each is laid out in.

use crate::order::{ByteOrder, CodecError};
use crate::primitive::Primitive;
use vstd::prelude::*;

verus! {

/// The mathematical model of a field's type.
pub enum Layout {
    /// A machine integer.
    Primitive(Primitive),
    /// A byte array of the given length.
    Bytes(nat),
    /// A nested record with the given fields.
    Record(Seq<Slot>),
}

/// The mathematical model of a field: its type and the byte order that it
/// declares for mixed mode, if any.
pub struct Slot {
    pub layout: Layout,
    pub order: Option<ByteOrder>,
}

impl Layout {
    /// The exact number of bytes that a value of this type occupies.
    pub open spec fn packed_len(self) -> nat
        decreases self,
    {
        match self {
            Layout::Primitive(p) => p.spec_width(),
            Layout::Bytes(n) => n,
            Layout::Record(slots) => record_len(slots),
        }
    }

    /// Whether no field anywhere inside declares `Mixed` as its own order.
    pub open spec fn supported(self) -> bool
        decreases self,
    {
        match self {
            Layout::Record(slots) => record_supported(slots),
            _ => true,
        }
    }

    /// Whether a field of this type can do without a declared order in
    /// mixed mode: a single byte, a byte array, or a record that is itself
    /// ready for mixed mode.
    pub open spec fn mixed_ready(self) -> bool
        decreases self,
    {
        match self {
            Layout::Primitive(p) => p.spec_width() == 1,
            Layout::Bytes(_) => true,
            Layout::Record(slots) => record_mixed_ready(slots),
        }
    }
}

impl Slot {
    /// Whether mixed mode knows how to lay this field out.
    pub open spec fn mixed_ready(self) -> bool
        decreases self,
    {
        match self.order {
            Some(ByteOrder::Little) | Some(ByteOrder::Big) => true,
            Some(ByteOrder::Mixed) => false,
            None => self.layout.mixed_ready(),
        }
    }
}

/// The packed size of a record: the sum of the packed sizes of its fields.
pub open spec fn record_len(slots: Seq<Slot>) -> nat
    decreases slots,
{
    if slots.len() == 0 {
        0
    } else {
        record_len(slots.drop_last()) + slots.last().layout.packed_len()
    }
}

/// Where field `i` of a record begins: the packed size of the fields before it.
pub open spec fn field_offset(slots: Seq<Slot>, i: int) -> nat {
    record_len(slots.take(i))
}

/// Whether no field of the record, at any depth, declares `Mixed` as its
/// own order.
pub open spec fn record_supported(slots: Seq<Slot>) -> bool
    decreases slots,
{
    forall|i: int|
        0 <= i < slots.len() ==> (#[trigger] slots[i]).order != Some(ByteOrder::Mixed)
            && slots[i].layout.supported()
}

/// Whether the record can be laid out in mixed mode: every field is.
pub open spec fn record_mixed_ready(slots: Seq<Slot>) -> bool
    decreases slots,
{
    forall|i: int| 0 <= i < slots.len() ==> (#[trigger] slots[i]).mixed_ready()
}

/// The order that a field is laid out in under mixed mode, or why it has none.
pub open spec fn resolve(slot: Slot) -> Result<ByteOrder, CodecError> {
    match slot.order {
        Some(ByteOrder::Little) => Ok(ByteOrder::Little),
        Some(ByteOrder::Big) => Ok(ByteOrder::Big),
        Some(ByteOrder::Mixed) => Err(CodecError::InvalidOrderOverride),
        None => match slot.layout {
            Layout::Primitive(p) => if p.spec_width() == 1 {
                Ok(ByteOrder::Mixed)
            } else {
                Err(CodecError::MissingOrderAnnotation)
            },
            _ => Ok(ByteOrder::Mixed),
        },
    }
}

/// The order in which a field is laid out when its record is laid out in
/// `mode`: `mode` itself unless it is `Mixed`, then the field's declared
/// order, and `Mixed` again where it declares none.
pub open spec fn effective_order(mode: ByteOrder, slot: Slot) -> ByteOrder {
    match mode {
        ByteOrder::Mixed => match slot.order {
            Some(order) => order,
            None => ByteOrder::Mixed,
        },
        _ => mode,
    }
}

/// The packed size of two field lists, one after the other, is the sum of
/// their packed sizes.
pub proof fn lemma_record_len_concat(a: Seq<Slot>, b: Seq<Slot>)
    ensures
        record_len(a + b) == record_len(a) + record_len(b),
    decreases b.len(),
{
    if b.len() == 0 {
        assert(a + b =~= a);
    } else {
        assert((a + b).drop_last() =~= a + b.drop_last());
        lemma_record_len_concat(a, b.drop_last());
    }
}

/// The fields lie one after the other: the first begins at `0`, each one
/// begins where the one before it ends, and none reaches past the record.
pub proof fn lemma_field_offsets(slots: Seq<Slot>, i: int)
    requires
        0 <= i < slots.len(),
    ensures
        field_offset(slots, 0) == 0,
        field_offset(slots, i + 1) == field_offset(slots, i) + slots[i].layout.packed_len(),
        field_offset(slots, i + 1) <= record_len(slots),
        field_offset(slots, slots.len() as int) == record_len(slots),
{
    assert(slots.take(i + 1).drop_last() =~= slots.take(i));
    assert(slots.take(slots.len() as int) =~= slots);
    assert(slots.take(i + 1) + slots.skip(i + 1) =~= slots);
    lemma_record_len_concat(slots.take(i + 1), slots.skip(i + 1));
}

} // verus!
