//! Record schemas: the fields of a record type as a program holds them.

use crate::layout::{
    field_offset, lemma_field_offsets, record_len, record_mixed_ready, record_supported, resolve,
    Layout, Slot,
};
use crate::order::{ByteOrder, CodecError};
use crate::primitive::Primitive;
use vstd::prelude::*;

verus! {

/// What kind of declaration a schema is built from.
#[derive(Clone, Copy, Debug, PartialEq, Eq, Hash, Structural)]
pub enum TypeKind {
    /// A struct with named, unnamed or no fields.
    Struct,
    /// An enum: it has no packed layout.
    Enum,
    /// A union: it has no packed layout.
    Union,
}

/// The type of a field.
#[derive(Debug, PartialEq, Eq)]
pub enum TypeRef {
    /// A machine integer.
    Primitive(Primitive),
    /// A byte array of the given length, copied as it is under every order.
    FixedByteArray(usize),
    /// A nested record.
    Composite(RecordSchema),
}

/// A field of a record: its type, and the byte order that it declares for
/// itself. Only mixed mode looks at the declared order.
#[derive(Debug, PartialEq, Eq)]
pub struct FieldDescriptor {
    pub type_ref: TypeRef,
    pub order_override: Option<ByteOrder>,
}

/// The fields of a record type, in declaration order, together with what
/// follows from them once and for all: the packed size, and whether the
/// record can be laid out in mixed mode.
#[derive(Debug, PartialEq, Eq)]
pub struct RecordSchema {
    fields: Vec<FieldDescriptor>,
    size: usize,
    mixed: bool,
}

/// Why no schema is built from a declaration of kind `kind` with the fields
/// `slots`, if it is refused: an enum or a union has no packed layout, and a
/// field cannot declare `Mixed` as its own order.
pub open spec fn refusal(kind: TypeKind, slots: Seq<Slot>) -> Option<CodecError> {
    if kind != TypeKind::Struct {
        Some(CodecError::UnsupportedKind)
    } else if exists|i: int|
        0 <= i < slots.len() && (#[trigger] slots[i]).order == Some(ByteOrder::Mixed) {
        Some(CodecError::InvalidOrderOverride)
    } else {
        None
    }
}

/// Why no schema for mixed mode is built from a declaration of kind `kind`
/// with the fields `slots`, if it is refused: for the reasons of
/// [`refusal`], or because a field that needs a byte order declares none.
pub open spec fn mixed_refusal(kind: TypeKind, slots: Seq<Slot>) -> Option<CodecError> {
    match refusal(kind, slots) {
        Some(e) => Some(e),
        None => if record_mixed_ready(slots) {
            None
        } else {
            Some(CodecError::MissingOrderAnnotation)
        },
    }
}

/// The models of the fields `fields`, in the same order.
pub open spec fn slots_of(fields: Seq<FieldDescriptor>) -> Seq<Slot>
    decreases fields,
{
    Seq::new(
        fields.len(),
        |i: int|
            if 0 <= i < fields.len() {
                fields[i].view()
            } else {
                Slot { layout: Layout::Bytes(0), order: None }
            },
    )
}

impl View for TypeRef {
    type V = Layout;

    open spec fn view(&self) -> Layout
        decreases self,
    {
        match self {
            TypeRef::Primitive(p) => Layout::Primitive(*p),
            TypeRef::FixedByteArray(n) => Layout::Bytes(*n as nat),
            TypeRef::Composite(schema) => Layout::Record(schema.view()),
        }
    }
}

impl View for FieldDescriptor {
    type V = Slot;

    open spec fn view(&self) -> Slot
        decreases self,
    {
        Slot { layout: self.type_ref.view(), order: self.order_override }
    }
}

impl View for RecordSchema {
    type V = Seq<Slot>;

    closed spec fn view(&self) -> Seq<Slot>
        decreases self,
    {
        slots_of(self.fields@)
    }
}

impl TypeRef {
    /// Whether every record schema inside is well formed.
    pub open spec fn wf(&self) -> bool
        decreases self,
    {
        match self {
            TypeRef::Composite(schema) => schema.wf(),
            _ => true,
        }
    }

    /// The exact number of bytes that a value of this type occupies.
    pub fn packed_size(&self) -> (size: usize)
        requires
            self.wf(),
        ensures
            size == self@.packed_len(),
    {
        match self {
            TypeRef::Primitive(p) => p.width(),
            TypeRef::FixedByteArray(n) => *n,
            TypeRef::Composite(schema) => schema.packed_size(),
        }
    }
}

impl FieldDescriptor {
    /// Whether every record schema inside the field's type is well formed.
    pub open spec fn wf(&self) -> bool {
        self.type_ref.wf()
    }

    /// Whether mixed mode knows how to lay this field out: it declares
    /// little or big endian, or its type needs no order.
    pub fn supports_mixed(&self) -> (ready: bool)
        requires
            self.wf(),
        ensures
            ready == self@.mixed_ready(),
    {
        match self.order_override {
            Some(ByteOrder::Little) | Some(ByteOrder::Big) => true,
            Some(ByteOrder::Mixed) => false,
            None => match &self.type_ref {
                TypeRef::Primitive(p) => p.width() == 1,
                TypeRef::FixedByteArray(_) => true,
                TypeRef::Composite(schema) => schema.supports_mixed(),
            },
        }
    }
}

/// The order in which mixed mode lays `field` out. A declared little or big
/// endian is taken as it is. A field that declares none falls back on its
/// type: a nested record, a byte array and a single byte have a mixed-mode
/// layout of their own, and the answer is `Mixed`; a wider number has none.
pub fn resolve_order(field: &FieldDescriptor) -> (order: Result<ByteOrder, CodecError>)
    ensures
        order == resolve(field@),
{
    match field.order_override {
        Some(ByteOrder::Little) => Ok(ByteOrder::Little),
        Some(ByteOrder::Big) => Ok(ByteOrder::Big),
        Some(ByteOrder::Mixed) => Err(CodecError::InvalidOrderOverride),
        None => match &field.type_ref {
            TypeRef::Primitive(p) => if p.width() == 1 {
                Ok(ByteOrder::Mixed)
            } else {
                Err(CodecError::MissingOrderAnnotation)
            },
            _ => Ok(ByteOrder::Mixed),
        },
    }
}

impl RecordSchema {
    /// Whether the schema is one that [`RecordSchema::new`] has built: no
    /// field declares `Mixed`, and what the schema has stored of its size
    /// and of mixed mode is true of its fields.
    pub closed spec fn wf(&self) -> bool
        decreases self,
    {
        &&& forall|i: int| 0 <= i < self.fields@.len() ==> (#[trigger] self.fields@[i]).type_ref.wf()
        &&& record_supported(self@)
        &&& self.size == record_len(self@)
        &&& self.mixed == record_mixed_ready(self@)
    }

    /// The packed size of a record with the fields `fields`, or `None` where
    /// it is more than a `usize` holds, so that no buffer of this machine
    /// could ever hold the record.
    pub fn checked_size(fields: &Vec<FieldDescriptor>) -> (size: Option<usize>)
        requires
            forall|i: int| 0 <= i < fields@.len() ==> (#[trigger] fields@[i]).wf(),
        ensures
            match size {
                Some(n) => n == record_len(slots_of(fields@)),
                None => record_len(slots_of(fields@)) > usize::MAX,
            },
    {
        let ghost slots = slots_of(fields@);
        let mut size: usize = 0;
        let mut i: usize = 0;
        while i < fields.len()
            invariant
                i <= fields@.len(),
                slots == slots_of(fields@),
                forall|j: int| 0 <= j < fields@.len() ==> (#[trigger] fields@[j]).wf(),
                size == field_offset(slots, i as int),
            decreases fields@.len() - i,
        {
            let field = &fields[i];
            assert(field.wf());
            assert(slots[i as int] == field@);
            proof {
                lemma_field_offsets(slots, i as int);
            }
            let len = field.type_ref.packed_size();
            if len > usize::MAX - size {
                return None;
            }
            size = size + len;
            i += 1;
        }
        proof {
            assert(slots.take(i as int) =~= slots);
        }
        Some(size)
    }

    /// Builds the schema of a declaration of kind `kind` with the fields
    /// `fields`, in declaration order. An enum or a union is refused, and so
    /// is a field that declares `Mixed` as its own order.
    pub fn new(kind: TypeKind, fields: Vec<FieldDescriptor>) -> (built: Result<
        RecordSchema,
        CodecError,
    >)
        requires
            forall|i: int| 0 <= i < fields@.len() ==> (#[trigger] fields@[i]).wf(),
            record_len(slots_of(fields@)) <= usize::MAX,
        ensures
            match built {
                Ok(schema) => {
                    &&& refusal(kind, slots_of(fields@)) is None
                    &&& schema.wf()
                    &&& schema@ == slots_of(fields@)
                },
                Err(e) => refusal(kind, slots_of(fields@)) == Some(e),
            },
    {
        match kind {
            TypeKind::Struct => {},
            _ => {
                return Err(CodecError::UnsupportedKind);
            },
        }
        let ghost slots = slots_of(fields@);
        let mut size: usize = 0;
        let mut mixed = true;
        let mut i: usize = 0;
        while i < fields.len()
            invariant
                i <= fields@.len(),
                kind == TypeKind::Struct,
                slots == slots_of(fields@),
                forall|j: int| 0 <= j < fields@.len() ==> (#[trigger] fields@[j]).wf(),
                record_len(slots) <= usize::MAX,
                size == field_offset(slots, i as int),
                mixed == record_mixed_ready(slots.take(i as int)),
                record_supported(slots.take(i as int)),
            decreases fields@.len() - i,
        {
            let field = &fields[i];
            assert(field.wf());
            assert(slots[i as int] == field@);
            match field.order_override {
                Some(ByteOrder::Mixed) => {
                    assert(slots[i as int].order == Some(ByteOrder::Mixed));
                    return Err(CodecError::InvalidOrderOverride);
                },
                _ => {},
            }
            proof {
                lemma_field_offsets(slots, i as int);
                assert(slots.take(i + 1).drop_last() =~= slots.take(i as int));
                assert(slots.take(i + 1).last() == slots[i as int]);
            }
            let len = field.type_ref.packed_size();
            let ready = field.supports_mixed();
            proof {
                let before = slots.take(i as int);
                let after = slots.take(i + 1);
                assert forall|j: int| 0 <= j < after.len() implies (#[trigger] after[j]).order
                    != Some(ByteOrder::Mixed) && after[j].layout.supported() by {
                    if j < i {
                        assert(before[j] == after[j]);
                    }
                }
                if mixed && ready {
                    assert forall|j: int| 0 <= j < after.len() implies (
                    #[trigger] after[j]).mixed_ready() by {
                        if j < i {
                            assert(before[j] == after[j]);
                        }
                    }
                } else if !mixed {
                    let j = choose|j: int| 0 <= j < before.len() && !(#[trigger] before[j]).mixed_ready();
                    assert(after[j] == before[j]);
                } else {
                    assert(after[i as int] == slots[i as int]);
                }
            }
            size = size + len;
            mixed = mixed && ready;
            i += 1;
        }
        proof {
            assert(slots.take(i as int) =~= slots);
        }
        Ok(RecordSchema { fields, size, mixed })
    }

    /// Builds the schema of a declaration that is to be laid out in mixed
    /// mode. Beyond what [`RecordSchema::new`] refuses, a number wider than
    /// one byte has to declare its byte order, here and in every nested
    /// record that declares none as a whole.
    pub fn new_mixed(kind: TypeKind, fields: Vec<FieldDescriptor>) -> (built: Result<
        RecordSchema,
        CodecError,
    >)
        requires
            forall|i: int| 0 <= i < fields@.len() ==> (#[trigger] fields@[i]).wf(),
            record_len(slots_of(fields@)) <= usize::MAX,
        ensures
            match built {
                Ok(schema) => {
                    &&& mixed_refusal(kind, slots_of(fields@)) is None
                    &&& schema.wf()
                    &&& schema@ == slots_of(fields@)
                },
                Err(e) => mixed_refusal(kind, slots_of(fields@)) == Some(e),
            },
    {
        match RecordSchema::new(kind, fields) {
            Ok(schema) => if schema.supports_mixed() {
                Ok(schema)
            } else {
                Err(CodecError::MissingOrderAnnotation)
            },
            Err(e) => Err(e),
        }
    }

    /// The byte range `[begin, end)` of field `i` within the record: it
    /// begins where the fields before it end, whatever the byte order.
    pub fn field_range(&self, i: usize) -> (range: (usize, usize))
        requires
            self.wf(),
            i < self@.len(),
        ensures
            range.0 == field_offset(self@, i as int),
            range.1 == range.0 + self@[i as int].layout.packed_len(),
            range.1 <= record_len(self@),
    {
        let mut begin: usize = 0;
        let mut j: usize = 0;
        while j < i
            invariant
                j <= i < self@.len(),
                self.wf(),
                begin == field_offset(self@, j as int),
            decreases i - j,
        {
            proof {
                lemma_field_offsets(self@, j as int);
            }
            let len = self.field(j).type_ref.packed_size();
            begin = begin + len;
            j += 1;
        }
        proof {
            lemma_field_offsets(self@, i as int);
        }
        let len = self.field(i).type_ref.packed_size();
        (begin, begin + len)
    }

    /// The packed size of the record: the sum of the packed sizes of its
    /// fields, through every level of nesting.
    pub fn packed_size(&self) -> (size: usize)
        requires
            self.wf(),
        ensures
            size == record_len(self@),
    {
        self.size
    }

    /// Whether the record can be laid out in mixed mode.
    pub fn supports_mixed(&self) -> (ready: bool)
        requires
            self.wf(),
        ensures
            ready == record_mixed_ready(self@),
    {
        self.mixed
    }

    /// The number of fields.
    pub fn field_count(&self) -> (count: usize)
        ensures
            count == self@.len(),
    {
        self.fields.len()
    }

    /// The field at position `i` of the declaration.
    pub fn field(&self, i: usize) -> (field: &FieldDescriptor)
        requires
            i < self@.len(),
        ensures
            field@ == self@[i as int],
            self.wf() ==> field.wf(),
    {
        &self.fields[i]
    }
}

impl Clone for TypeRef {
    /// A copy of the type, with the same model.
    fn clone(&self) -> (copy: Self)
        ensures
            copy@ == self@,
            self.wf() ==> copy.wf(),
        decreases self,
    {
        match self {
            TypeRef::Primitive(p) => TypeRef::Primitive(*p),
            TypeRef::FixedByteArray(n) => TypeRef::FixedByteArray(*n),
            TypeRef::Composite(schema) => TypeRef::Composite(schema.clone()),
        }
    }
}

impl Clone for FieldDescriptor {
    /// A copy of the field, with the same model.
    fn clone(&self) -> (copy: Self)
        ensures
            copy@ == self@,
            self.wf() ==> copy.wf(),
        decreases self,
    {
        FieldDescriptor { type_ref: self.type_ref.clone(), order_override: self.order_override }
    }
}

impl Clone for RecordSchema {
    /// A copy of the schema, with the same fields.
    fn clone(&self) -> (copy: Self)
        ensures
            copy@ == self@,
            self.wf() ==> copy.wf(),
        decreases self,
    {
        let mut fields: Vec<FieldDescriptor> = Vec::new();
        let mut i: usize = 0;
        while i < self.fields.len()
            invariant
                i <= self.fields@.len(),
                fields@.len() == i,
                forall|j: int| 0 <= j < i ==> (#[trigger] fields@[j])@ == self.fields@[j]@,
                forall|j: int|
                    0 <= j < i ==> self.fields@[j].wf() ==> (#[trigger] fields@[j]).wf(),
            decreases self.fields@.len() - i,
        {
            fields.push(self.fields[i].clone());
            i += 1;
        }
        proof {
            assert(slots_of(fields@) =~= slots_of(self.fields@));
        }
        RecordSchema { fields, size: self.size, mixed: self.mixed }
    }
}

} // verus!
