//! Record values: the data that a schema lays out.

use crate::layout::{Layout, Slot};
use crate::primitive::Primitive;
use crate::schema::{RecordSchema, TypeRef};
use vstd::prelude::*;

verus! {

/// The mathematical model of a value.
pub enum Datum {
    /// The number `1` of the integer type `0`.
    Int(Primitive, int),
    /// The contents of a byte array.
    Bytes(Seq<u8>),
    /// The field values of a record, in declaration order.
    Record(Seq<Datum>),
}

impl Datum {
    /// Whether this is a value of the type `layout`.
    pub open spec fn conforms(self, layout: Layout) -> bool
        decreases self,
    {
        match (self, layout) {
            (Datum::Int(p, v), Layout::Primitive(q)) => p == q && p.holds(v),
            (Datum::Bytes(bytes), Layout::Bytes(n)) => bytes.len() == n,
            (Datum::Record(items), Layout::Record(slots)) => record_conforms(items, slots),
            _ => false,
        }
    }
}

/// Whether `items` are values for the fields `slots`, one for one.
pub open spec fn record_conforms(items: Seq<Datum>, slots: Seq<Slot>) -> bool
    decreases items,
{
    &&& items.len() == slots.len()
    &&& forall|i: int| 0 <= i < items.len() ==> (#[trigger] items[i]).conforms(slots[i].layout)
}

/// A value of a field or of a whole record. A value carries no schema: which
/// record type it belongs to is for the caller to know.
#[derive(Debug, PartialEq, Eq)]
pub enum Value {
    U8(u8),
    I8(i8),
    U16(u16),
    I16(i16),
    U32(u32),
    I32(i32),
    U64(u64),
    I64(i64),
    U128(u128),
    I128(i128),
    /// The contents of a byte array.
    Bytes(Vec<u8>),
    /// The field values of a record, in declaration order.
    Record(Vec<Value>),
}

/// The models of the values `values`, in the same order.
pub open spec fn data_of(values: Seq<Value>) -> Seq<Datum>
    decreases values,
{
    Seq::new(
        values.len(),
        |i: int|
            if 0 <= i < values.len() {
                values[i].view()
            } else {
                Datum::Bytes(Seq::empty())
            },
    )
}

impl View for Value {
    type V = Datum;

    open spec fn view(&self) -> Datum
        decreases self,
    {
        match self {
            Value::U8(v) => Datum::Int(Primitive::U8, *v as int),
            Value::I8(v) => Datum::Int(Primitive::I8, *v as int),
            Value::U16(v) => Datum::Int(Primitive::U16, *v as int),
            Value::I16(v) => Datum::Int(Primitive::I16, *v as int),
            Value::U32(v) => Datum::Int(Primitive::U32, *v as int),
            Value::I32(v) => Datum::Int(Primitive::I32, *v as int),
            Value::U64(v) => Datum::Int(Primitive::U64, *v as int),
            Value::I64(v) => Datum::Int(Primitive::I64, *v as int),
            Value::U128(v) => Datum::Int(Primitive::U128, *v as int),
            Value::I128(v) => Datum::Int(Primitive::I128, *v as int),
            Value::Bytes(bytes) => Datum::Bytes(bytes@),
            Value::Record(items) => Datum::Record(data_of(items@)),
        }
    }
}

impl Value {
    /// The integer type of a number; `None` for a byte array or a record.
    pub fn primitive(&self) -> (kind: Option<Primitive>)
        ensures
            match kind {
                Some(p) => self@ matches Datum::Int(q, v) && q == p && p.holds(v),
                None => !(self@ is Int),
            },
    {
        match self {
            Value::U8(_) => Some(Primitive::U8),
            Value::I8(_) => Some(Primitive::I8),
            Value::U16(_) => Some(Primitive::U16),
            Value::I16(_) => Some(Primitive::I16),
            Value::U32(_) => Some(Primitive::U32),
            Value::I32(_) => Some(Primitive::I32),
            Value::U64(_) => Some(Primitive::U64),
            Value::I64(_) => Some(Primitive::I64),
            Value::U128(_) => Some(Primitive::U128),
            Value::I128(_) => Some(Primitive::I128),
            _ => None,
        }
    }

    /// The two's complement of a number: the unsigned number that has the
    /// same bytes. A byte array or a record gives `0`.
    pub fn unsigned(&self) -> (raw: u128)
        ensures
            match self@ {
                Datum::Int(p, v) => raw == p.unsigned(v) && raw < p.modulus(),
                _ => raw == 0,
            },
    {
        match self {
            Value::U8(v) => *v as u128,
            Value::U16(v) => *v as u128,
            Value::U32(v) => *v as u128,
            Value::U64(v) => *v as u128,
            Value::U128(v) => *v,
            Value::I8(v) => Primitive::I8.to_unsigned(*v as i128),
            Value::I16(v) => Primitive::I16.to_unsigned(*v as i128),
            Value::I32(v) => Primitive::I32.to_unsigned(*v as i128),
            Value::I64(v) => Primitive::I64.to_unsigned(*v as i128),
            Value::I128(v) => Primitive::I128.to_unsigned(*v),
            _ => 0,
        }
    }

    /// The number of type `p` whose two's complement is `raw`.
    pub fn from_unsigned(p: Primitive, raw: u128) -> (value: Value)
        requires
            raw < p.modulus(),
        ensures
            value@ == Datum::Int(p, p.number(raw as nat)),
            p.holds(p.number(raw as nat)),
    {
        match p {
            Primitive::U8 => Value::U8(raw as u8),
            Primitive::U16 => Value::U16(raw as u16),
            Primitive::U32 => Value::U32(raw as u32),
            Primitive::U64 => Value::U64(raw as u64),
            Primitive::U128 => Value::U128(raw),
            Primitive::I8 => Value::I8(p.to_signed(raw) as i8),
            Primitive::I16 => Value::I16(p.to_signed(raw) as i16),
            Primitive::I32 => Value::I32(p.to_signed(raw) as i32),
            Primitive::I64 => Value::I64(p.to_signed(raw) as i64),
            Primitive::I128 => Value::I128(p.to_signed(raw)),
        }
    }
}

impl Value {
    /// Whether this is a value of the type `ty`.
    pub fn conforms_to(&self, ty: &TypeRef) -> (ok: bool)
        requires
            ty.wf(),
        ensures
            ok == self@.conforms(ty@),
        decreases self@, 1nat,
    {
        match (self, ty) {
            (Value::Bytes(bytes), TypeRef::FixedByteArray(n)) => bytes.len() == *n,
            (Value::Record(_), TypeRef::Composite(schema)) => self.is_record_of(schema),
            (_, TypeRef::Primitive(p)) => match self.primitive() {
                Some(q) => q == *p,
                None => false,
            },
            _ => false,
        }
    }

    /// Whether this is a record of the type `schema`: it has a value of the
    /// field's type for every field, in declaration order.
    pub fn is_record_of(&self, schema: &RecordSchema) -> (ok: bool)
        requires
            schema.wf(),
        ensures
            ok == self@.conforms(Layout::Record(schema@)),
        decreases self@, 0nat,
    {
        match self {
            Value::Record(items) => {
                if items.len() != schema.field_count() {
                    return false;
                }
                let ghost data = data_of(items@);
                let mut i: usize = 0;
                while i < items.len()
                    invariant
                        i <= items@.len() == schema@.len(),
                        schema.wf(),
                        self@ == Datum::Record(data),
                        data == data_of(items@),
                        forall|j: int| 0 <= j < i ==> (#[trigger] data[j]).conforms(schema@[j].layout),
                    decreases items@.len() - i,
                {
                    let field = schema.field(i);
                    proof {
                        assert(data[i as int] == items@[i as int]@);
                        // The field value is a part of the record value.
                        assert(decreases_to!(self@ => self@->Record_0[i as int]));
                    }
                    if !items[i].conforms_to(&field.type_ref) {
                        return false;
                    }
                    i += 1;
                }
                true
            },
            _ => false,
        }
    }
}

impl Clone for Value {
    /// A copy of the value, with the same model.
    fn clone(&self) -> (copy: Self)
        ensures
            copy@ == self@,
        decreases self,
    {
        match self {
            Value::U8(v) => Value::U8(*v),
            Value::I8(v) => Value::I8(*v),
            Value::U16(v) => Value::U16(*v),
            Value::I16(v) => Value::I16(*v),
            Value::U32(v) => Value::U32(*v),
            Value::I32(v) => Value::I32(*v),
            Value::U64(v) => Value::U64(*v),
            Value::I64(v) => Value::I64(*v),
            Value::U128(v) => Value::U128(*v),
            Value::I128(v) => Value::I128(*v),
            Value::Bytes(bytes) => {
                let copy = bytes.clone();
                proof {
                    assert(copy@ =~= bytes@);
                }
                Value::Bytes(copy)
            },
            Value::Record(items) => {
                let mut copy: Vec<Value> = Vec::new();
                let mut i: usize = 0;
                while i < items.len()
                    invariant
                        i <= items@.len(),
                        copy@.len() == i,
                        self is Record && self->Record_0 == *items,
                        forall|j: int| 0 <= j < i ==> (#[trigger] copy@[j])@ == items@[j]@,
                    decreases items@.len() - i,
                {
                    copy.push(items[i].clone());
                    i += 1;
                }
                proof {
                    assert(data_of(copy@) =~= data_of(items@));
                }
                Value::Record(copy)
            },
        }
    }
}

} // verus!
