use endian_codec::{
    decode, decode_be, decode_le, decode_mixed, encode, encode_be, encode_le, encode_mixed,
    ByteOrder, CodecError, FieldDescriptor, Primitive, RecordSchema, TypeKind, TypeRef, Value,
};

const MODES: [ByteOrder; 3] = [ByteOrder::Little, ByteOrder::Big, ByteOrder::Mixed];

fn number(primitive: Primitive, order: Option<ByteOrder>) -> FieldDescriptor {
    FieldDescriptor { type_ref: TypeRef::Primitive(primitive), order_override: order }
}

fn array(len: usize, order: Option<ByteOrder>) -> FieldDescriptor {
    FieldDescriptor { type_ref: TypeRef::FixedByteArray(len), order_override: order }
}

fn nested(schema: RecordSchema, order: Option<ByteOrder>) -> FieldDescriptor {
    FieldDescriptor { type_ref: TypeRef::Composite(schema), order_override: order }
}

fn record(fields: Vec<FieldDescriptor>) -> RecordSchema {
    RecordSchema::new(TypeKind::Struct, fields).unwrap()
}

fn bytes_of(schema: &RecordSchema, value: &Value, mode: ByteOrder) -> Vec<u8> {
    assert!(value.is_record_of(schema));
    let mut buffer = vec![0xAA; schema.packed_size()];
    assert_eq!(encode(schema, value, &mut buffer, mode), Ok(()));
    buffer
}

#[test]
fn request_with_an_order_for_every_field() {
    let schema = record(vec![
        number(Primitive::U16, Some(ByteOrder::Little)),
        number(Primitive::I64, Some(ByteOrder::Little)),
        number(Primitive::I128, Some(ByteOrder::Big)),
    ]);
    assert_eq!(schema.packed_size(), 2 + 8 + 16);
    let request = Value::Record(vec![
        Value::U16(0x44),
        Value::I64(74),
        Value::I128(0xFFFF_FFFF_0000_0000),
    ]);
    let mut buffer = [0xAA; 26];
    assert_eq!(encode_mixed(&schema, &request, &mut buffer), Ok(()));
    assert_eq!(
        buffer,
        [
            0x44, 0, // cmd
            74, 0, 0, 0, 0, 0, 0, 0, // value
            0, 0, 0, 0, 0, 0, 0, 0, 0xFF, 0xFF, 0xFF, 0xFF, 0, 0, 0, 0, // timestamp
        ]
    );
    assert_eq!(schema.field_range(0), (0, 2));
    assert_eq!(schema.field_range(1), (2, 10));
    assert_eq!(schema.field_range(2), (10, 26));
    assert_eq!(decode_mixed(&schema, &buffer), Ok(request));
}

#[test]
fn empty_record_takes_no_bytes() {
    let schema = record(vec![]);
    assert_eq!(schema.packed_size(), 0);
    let value = Value::Record(vec![]);
    for mode in MODES {
        let mut buffer: [u8; 0] = [];
        assert_eq!(encode(&schema, &value, &mut buffer, mode), Ok(()));
        assert_eq!(decode(&schema, &buffer, mode), Ok(Value::Record(vec![])));
        let mut one = [7u8];
        assert_eq!(encode(&schema, &value, &mut one, mode), Err(CodecError::SizeMismatch));
        assert_eq!(one, [7]);
    }
}

#[test]
fn wrong_length_is_refused_under_every_mode() {
    let schemas = [
        record(vec![number(Primitive::U16, None), number(Primitive::I16, None)]),
        record(vec![
            number(Primitive::U16, Some(ByteOrder::Big)),
            number(Primitive::I16, Some(ByteOrder::Little)),
        ]),
        record(vec![array(4, None)]),
    ];
    let values = [
        Value::Record(vec![Value::U16(1), Value::I16(2)]),
        Value::Record(vec![Value::U16(1), Value::I16(2)]),
        Value::Record(vec![Value::Bytes(vec![1, 2, 3, 4])]),
    ];
    for (schema, value) in schemas.iter().zip(values.iter()) {
        for mode in MODES {
            for len in [0, 1, 3, 5, 8] {
                let mut buffer = vec![0x5A; len];
                assert_eq!(
                    encode(schema, value, &mut buffer, mode),
                    Err(CodecError::SizeMismatch)
                );
                assert_eq!(buffer, vec![0x5A; len]);
                assert_eq!(decode(schema, &buffer, mode), Err(CodecError::SizeMismatch));
            }
        }
    }
    let schema = &schemas[0];
    let mut short = [0u8; 3];
    assert_eq!(encode_le(schema, &values[0], &mut short), Err(CodecError::SizeMismatch));
    assert_eq!(encode_be(schema, &values[0], &mut short), Err(CodecError::SizeMismatch));
    assert_eq!(encode_mixed(schema, &values[0], &mut short), Err(CodecError::SizeMismatch));
    assert_eq!(decode_le(schema, &short), Err(CodecError::SizeMismatch));
    assert_eq!(decode_be(schema, &short), Err(CodecError::SizeMismatch));
    assert_eq!(decode_mixed(schema, &short), Err(CodecError::SizeMismatch));
}

#[test]
fn wide_number_needs_an_order_in_mixed_mode() {
    let schema = record(vec![number(Primitive::U8, None), number(Primitive::U16, None)]);
    let value = Value::Record(vec![Value::U8(1), Value::U16(2)]);
    let mut buffer = [9u8; 3];
    assert_eq!(
        encode_mixed(&schema, &value, &mut buffer),
        Err(CodecError::MissingOrderAnnotation)
    );
    assert_eq!(buffer, [9; 3]);
    assert_eq!(decode_mixed(&schema, &buffer), Err(CodecError::MissingOrderAnnotation));
    assert_eq!(
        encode(&schema, &value, &mut buffer, ByteOrder::Mixed),
        Err(CodecError::MissingOrderAnnotation)
    );
    assert_eq!(encode_le(&schema, &value, &mut buffer), Ok(()));
    assert_eq!(buffer, [1, 2, 0]);

    let outer = record(vec![nested(schema, None)]);
    let value = Value::Record(vec![value]);
    assert_eq!(
        encode_mixed(&outer, &value, &mut buffer),
        Err(CodecError::MissingOrderAnnotation)
    );
    assert_eq!(buffer, [1, 2, 0]);
}

#[test]
fn round_trip_under_every_mode() {
    let inner = record(vec![
        number(Primitive::I16, Some(ByteOrder::Big)),
        array(3, None),
        number(Primitive::I8, None),
    ]);
    let schema = record(vec![
        number(Primitive::U8, Some(ByteOrder::Little)),
        number(Primitive::I8, Some(ByteOrder::Big)),
        number(Primitive::U16, Some(ByteOrder::Big)),
        number(Primitive::I16, Some(ByteOrder::Little)),
        number(Primitive::U32, Some(ByteOrder::Little)),
        number(Primitive::I32, Some(ByteOrder::Big)),
        number(Primitive::U64, Some(ByteOrder::Big)),
        number(Primitive::I64, Some(ByteOrder::Little)),
        number(Primitive::U128, Some(ByteOrder::Little)),
        number(Primitive::I128, Some(ByteOrder::Big)),
        array(5, None),
        nested(inner.clone(), None),
        nested(inner, Some(ByteOrder::Little)),
    ]);
    assert!(schema.supports_mixed());
    let inner_value = |a: i16, c: i8| {
        Value::Record(vec![Value::I16(a), Value::Bytes(vec![1, 2, 3]), Value::I8(c)])
    };
    let values = [
        Value::Record(vec![
            Value::U8(0),
            Value::I8(0),
            Value::U16(0),
            Value::I16(0),
            Value::U32(0),
            Value::I32(0),
            Value::U64(0),
            Value::I64(0),
            Value::U128(0),
            Value::I128(0),
            Value::Bytes(vec![0; 5]),
            inner_value(0, 0),
            inner_value(0, 0),
        ]),
        Value::Record(vec![
            Value::U8(u8::MAX),
            Value::I8(i8::MIN),
            Value::U16(u16::MAX),
            Value::I16(i16::MIN),
            Value::U32(u32::MAX),
            Value::I32(i32::MIN),
            Value::U64(u64::MAX),
            Value::I64(i64::MIN),
            Value::U128(u128::MAX),
            Value::I128(i128::MIN),
            Value::Bytes(vec![255, 0, 255, 0, 255]),
            inner_value(i16::MAX, i8::MAX),
            inner_value(i16::MIN, i8::MIN),
        ]),
        Value::Record(vec![
            Value::U8(0x12),
            Value::I8(-1),
            Value::U16(0x1234),
            Value::I16(-2),
            Value::U32(0x1234_5678),
            Value::I32(-3),
            Value::U64(0x1234_5678_9ABC_DEF0),
            Value::I64(-4),
            Value::U128(0x0102_0304_0506_0708_090A_0B0C_0D0E_0F10),
            Value::I128(i128::MAX),
            Value::Bytes(vec![5, 4, 3, 2, 1]),
            inner_value(-300, -7),
            inner_value(300, 7),
        ]),
    ];
    for value in values.iter() {
        for mode in MODES {
            let buffer = bytes_of(&schema, value, mode);
            assert_eq!(buffer.len(), schema.packed_size());
            let back = decode(&schema, &buffer, mode).unwrap();
            assert_eq!(&back, value);
            assert!(back.is_record_of(&schema));
            let again = bytes_of(&schema, &back, mode);
            assert_eq!(again, buffer);
        }
    }
}

#[test]
fn bytes_decoded_and_encoded_are_the_bytes() {
    let schema = record(vec![
        number(Primitive::I16, Some(ByteOrder::Big)),
        array(2, None),
        number(Primitive::I128, Some(ByteOrder::Little)),
        number(Primitive::U8, None),
    ]);
    let buffer: Vec<u8> = (0..21u8).map(|i| i.wrapping_mul(37).wrapping_add(200)).collect();
    for mode in MODES {
        let value = decode(&schema, &buffer, mode).unwrap();
        assert!(value.is_record_of(&schema));
        assert_eq!(bytes_of(&schema, &value, mode), buffer);
    }
}

#[test]
fn byte_arrays_ignore_the_mode() {
    for len in [1usize, 2, 16, 32] {
        let contents: Vec<u8> = (0..len).map(|i| (i * 7 + 1) as u8).collect();
        for order in [None, Some(ByteOrder::Little), Some(ByteOrder::Big)] {
            let schema = record(vec![array(len, order)]);
            let value = Value::Record(vec![Value::Bytes(contents.clone())]);
            for mode in MODES {
                assert_eq!(bytes_of(&schema, &value, mode), contents);
                assert_eq!(decode(&schema, &contents, mode).as_ref(), Ok(&value));
            }
        }
    }
}

#[test]
fn single_bytes_ignore_the_mode() {
    for order in [None, Some(ByteOrder::Little), Some(ByteOrder::Big)] {
        let schema = record(vec![number(Primitive::U8, order), number(Primitive::I8, order)]);
        let value = Value::Record(vec![Value::U8(0xC8), Value::I8(-56)]);
        for mode in MODES {
            assert_eq!(bytes_of(&schema, &value, mode), [0xC8, 0xC8]);
            assert_eq!(decode(&schema, &[0xC8, 0xC8], mode).as_ref(), Ok(&value));
        }
    }
}

#[test]
fn declared_order_counts_in_mixed_mode_only() {
    let schema = record(vec![
        number(Primitive::U16, Some(ByteOrder::Big)),
        number(Primitive::U32, Some(ByteOrder::Little)),
    ]);
    let value = Value::Record(vec![Value::U16(0x0102), Value::U32(0x0304_0506)]);
    assert_eq!(bytes_of(&schema, &value, ByteOrder::Little), [2, 1, 6, 5, 4, 3]);
    assert_eq!(bytes_of(&schema, &value, ByteOrder::Big), [1, 2, 3, 4, 5, 6]);
    assert_eq!(bytes_of(&schema, &value, ByteOrder::Mixed), [1, 2, 6, 5, 4, 3]);
}

#[test]
fn nested_record_resolves_its_own_fields() {
    let inner = record(vec![
        number(Primitive::U16, Some(ByteOrder::Big)),
        number(Primitive::U16, Some(ByteOrder::Little)),
    ]);
    let inner_value = Value::Record(vec![Value::U16(0x0102), Value::U16(0x0304)]);
    let value = Value::Record(vec![Value::U16(0x0A0B), inner_value]);

    let own = record(vec![
        number(Primitive::U16, Some(ByteOrder::Little)),
        nested(inner.clone(), None),
    ]);
    assert_eq!(bytes_of(&own, &value, ByteOrder::Mixed), [0x0B, 0x0A, 1, 2, 4, 3]);
    assert_eq!(bytes_of(&own, &value, ByteOrder::Little), [0x0B, 0x0A, 2, 1, 4, 3]);
    assert_eq!(bytes_of(&own, &value, ByteOrder::Big), [0x0A, 0x0B, 1, 2, 3, 4]);

    let little = record(vec![
        number(Primitive::U16, Some(ByteOrder::Big)),
        nested(inner.clone(), Some(ByteOrder::Little)),
    ]);
    assert_eq!(bytes_of(&little, &value, ByteOrder::Mixed), [0x0A, 0x0B, 2, 1, 4, 3]);

    let big = record(vec![
        number(Primitive::U16, Some(ByteOrder::Big)),
        nested(inner, Some(ByteOrder::Big)),
    ]);
    assert_eq!(bytes_of(&big, &value, ByteOrder::Mixed), [0x0A, 0x0B, 1, 2, 3, 4]);
    assert_eq!(decode_mixed(&big, &[0x0A, 0x0B, 1, 2, 3, 4]), Ok(value));
}

#[test]
fn each_field_owns_its_range() {
    let inner = record(vec![number(Primitive::U8, None), number(Primitive::U16, None)]);
    let schema = record(vec![
        number(Primitive::U16, None),
        nested(inner.clone(), None),
        number(Primitive::I16, None),
        number(Primitive::U32, None),
    ]);
    let value = Value::Record(vec![
        Value::U16(0x1122),
        Value::Record(vec![Value::U8(0x33), Value::U16(0x4455)]),
        Value::I16(0x6677),
        Value::U32(0x8899_AABB),
    ]);
    for mode in [ByteOrder::Little, ByteOrder::Big] {
        let whole = bytes_of(&schema, &value, mode);
        let Value::Record(items) = &value else { unreachable!() };
        for (i, item) in items.iter().enumerate() {
            let (begin, end) = schema.field_range(i);
            let field = schema.field(i).clone();
            let alone = record(vec![field]);
            let part = bytes_of(&alone, &Value::Record(vec![item.clone()]), mode);
            assert_eq!(&whole[begin..end], &part[..]);
        }
    }
}

#[test]
fn two_complement_of_negative_numbers() {
    let cases: Vec<(Primitive, Value, Vec<u8>)> = vec![
        (Primitive::I8, Value::I8(-1), vec![0xFF]),
        (Primitive::I8, Value::I8(-128), vec![0x80]),
        (Primitive::I16, Value::I16(-2), vec![0xFE, 0xFF]),
        (Primitive::I32, Value::I32(-0x0102_0304), vec![0xFC, 0xFC, 0xFD, 0xFE]),
        (Primitive::I64, Value::I64(i64::MIN), vec![0, 0, 0, 0, 0, 0, 0, 0x80]),
        (
            Primitive::I128,
            Value::I128(i128::MIN),
            vec![0, 0, 0, 0, 0, 0, 0, 0, 0, 0, 0, 0, 0, 0, 0, 0x80],
        ),
        (Primitive::I128, Value::I128(-1), vec![0xFF; 16]),
        (Primitive::U128, Value::U128(u128::MAX), vec![0xFF; 16]),
        (Primitive::U64, Value::U64(0x0102_0304_0506_0708), vec![8, 7, 6, 5, 4, 3, 2, 1]),
    ];
    for (primitive, number_value, little) in cases {
        let schema = record(vec![number(primitive, None)]);
        let value = Value::Record(vec![number_value]);
        let mut big = little.clone();
        big.reverse();
        assert_eq!(bytes_of(&schema, &value, ByteOrder::Little), little);
        assert_eq!(bytes_of(&schema, &value, ByteOrder::Big), big);
        assert_eq!(decode_le(&schema, &little).as_ref(), Ok(&value));
        assert_eq!(decode_be(&schema, &big).as_ref(), Ok(&value));
    }
}

#[test]
fn values_and_their_types() {
    let inner = record(vec![number(Primitive::U8, None)]);
    let schema = record(vec![
        number(Primitive::U16, None),
        array(2, None),
        nested(inner.clone(), None),
    ]);
    let good = Value::Record(vec![
        Value::U16(1),
        Value::Bytes(vec![1, 2]),
        Value::Record(vec![Value::U8(1)]),
    ]);
    assert!(good.is_record_of(&schema));
    assert!(good.conforms_to(&TypeRef::Composite(schema.clone())));

    let wrong_kind = Value::Record(vec![
        Value::I16(1),
        Value::Bytes(vec![1, 2]),
        Value::Record(vec![Value::U8(1)]),
    ]);
    assert!(!wrong_kind.is_record_of(&schema));
    let wrong_len = Value::Record(vec![
        Value::U16(1),
        Value::Bytes(vec![1, 2, 3]),
        Value::Record(vec![Value::U8(1)]),
    ]);
    assert!(!wrong_len.is_record_of(&schema));
    let wrong_inner = Value::Record(vec![
        Value::U16(1),
        Value::Bytes(vec![1, 2]),
        Value::Record(vec![Value::U8(1), Value::U8(2)]),
    ]);
    assert!(!wrong_inner.is_record_of(&schema));
    let too_few = Value::Record(vec![Value::U16(1), Value::Bytes(vec![1, 2])]);
    assert!(!too_few.is_record_of(&schema));
    assert!(!Value::U16(1).is_record_of(&schema));
    assert!(!Value::Bytes(vec![]).is_record_of(&record(vec![])));
    assert!(Value::Record(vec![]).is_record_of(&record(vec![])));

    assert!(Value::U16(1).conforms_to(&TypeRef::Primitive(Primitive::U16)));
    assert!(!Value::U16(1).conforms_to(&TypeRef::Primitive(Primitive::I16)));
    assert!(!Value::U16(1).conforms_to(&TypeRef::FixedByteArray(2)));
    assert!(Value::Bytes(vec![]).conforms_to(&TypeRef::FixedByteArray(0)));
    assert!(!Value::Bytes(vec![1]).conforms_to(&TypeRef::Primitive(Primitive::U8)));
    assert!(!good.conforms_to(&TypeRef::Composite(inner)));
}

#[test]
fn numbers_and_their_two_complement() {
    assert_eq!(Value::U8(200).primitive(), Some(Primitive::U8));
    assert_eq!(Value::I128(-5).primitive(), Some(Primitive::I128));
    assert_eq!(Value::Bytes(vec![1]).primitive(), None);
    assert_eq!(Value::Record(vec![]).primitive(), None);

    assert_eq!(Value::U8(200).unsigned(), 200);
    assert_eq!(Value::I8(-56).unsigned(), 200);
    assert_eq!(Value::I16(-1).unsigned(), 0xFFFF);
    assert_eq!(Value::I32(i32::MIN).unsigned(), 0x8000_0000);
    assert_eq!(Value::I64(-2).unsigned(), 0xFFFF_FFFF_FFFF_FFFE);
    assert_eq!(Value::I128(-1).unsigned(), u128::MAX);
    assert_eq!(Value::I128(i128::MIN).unsigned(), 1 << 127);
    assert_eq!(Value::U128(u128::MAX).unsigned(), u128::MAX);
    assert_eq!(Value::Bytes(vec![9]).unsigned(), 0);

    assert_eq!(Value::from_unsigned(Primitive::U8, 200), Value::U8(200));
    assert_eq!(Value::from_unsigned(Primitive::I8, 200), Value::I8(-56));
    assert_eq!(Value::from_unsigned(Primitive::I8, 127), Value::I8(127));
    assert_eq!(Value::from_unsigned(Primitive::I16, 0x8000), Value::I16(i16::MIN));
    assert_eq!(Value::from_unsigned(Primitive::U32, 0xFFFF_FFFF), Value::U32(u32::MAX));
    assert_eq!(Value::from_unsigned(Primitive::I64, 0xFFFF_FFFF_FFFF_FFFF), Value::I64(-1));
    assert_eq!(Value::from_unsigned(Primitive::I128, 1 << 127), Value::I128(i128::MIN));
    assert_eq!(Value::from_unsigned(Primitive::I128, u128::MAX), Value::I128(-1));
    assert_eq!(Value::from_unsigned(Primitive::U128, u128::MAX), Value::U128(u128::MAX));

    assert_eq!(Primitive::I8.to_unsigned(-1), 0xFF);
    assert_eq!(Primitive::I16.to_unsigned(5), 5);
    assert_eq!(Primitive::I32.to_unsigned(-2), 0xFFFF_FFFE);
    assert_eq!(Primitive::I64.to_signed(0x8000_0000_0000_0000), i64::MIN as i128);
    assert_eq!(Primitive::I128.to_signed(u128::MAX), -1);
}

#[test]
fn copy_of_a_value_is_the_value() {
    let value = Value::Record(vec![
        Value::I128(-9),
        Value::Bytes(vec![1, 2, 3]),
        Value::Record(vec![Value::U8(4), Value::Record(vec![])]),
    ]);
    assert_eq!(value.clone(), value);
}

#[test]
fn two_fields_in_two_orders() {
    let field = |primitive, order| FieldDescriptor {
        type_ref: TypeRef::Primitive(primitive),
        order_override: Some(order),
    };
    let schema = RecordSchema::new_mixed(
        TypeKind::Struct,
        vec![field(Primitive::U16, ByteOrder::Little), field(Primitive::I32, ByteOrder::Big)],
    )
    .unwrap();
    let value = Value::Record(vec![Value::U16(0x0102), Value::I32(-2)]);

    let mut buffer = [0; 6];
    encode_mixed(&schema, &value, &mut buffer).unwrap();
    assert_eq!(buffer, [0x02, 0x01, 0xFF, 0xFF, 0xFF, 0xFE]);
    assert_eq!(decode_mixed(&schema, &buffer), Ok(value));
}
