//! Codec tests: scalar round trips, size and byte classification, container
//! framing, enumeration membership, and codec construction errors.
use edgedb_protocol::codec::{build_codec, build_input_codec, scalar_codec, Codec};
use edgedb_protocol::descriptors::{
    ArrayTypeDescriptor, BaseScalarTypeDescriptor, Descriptor, EnumerationTypeDescriptor,
    NamedTupleTypeDescriptor, ObjectShapeDescriptor, ScalarTypeDescriptor, SetDescriptor,
    ShapeElement, TupleElement, TupleTypeDescriptor, TypeAnnotationDescriptor, TypePos,
};
use edgedb_protocol::errors::{CodecError, DecodeError, EncodeError};
use edgedb_protocol::model::{BigInt, Decimal, Duration, Uuid};
use edgedb_protocol::serialization::{Input, Output};
use edgedb_protocol::type_ids;
use edgedb_protocol::value::{value_eq, EnumValue, Value};

fn base(id: u128) -> Descriptor {
    Descriptor::BaseScalar(BaseScalarTypeDescriptor { id: Uuid::from_u128(id) })
}

fn roundtrip(codec: &Codec, val: &Value) -> Value {
    let mut out = Output::new();
    codec.encode(&mut out, val).expect("encode failed");
    codec.decode(Input::new(out.as_slice())).expect("decode failed")
}

fn assert_roundtrip(codec: &Codec, val: Value) {
    let back = roundtrip(codec, &val);
    assert!(value_eq(&val, &back));
}

#[test]
fn scalar_round_trips() {
    assert_roundtrip(&scalar_codec(&Uuid::from_u128(type_ids::STD_INT16)).unwrap(), Value::Int16(i16::MIN));
    assert_roundtrip(&scalar_codec(&Uuid::from_u128(type_ids::STD_INT32)).unwrap(), Value::Int32(-1));
    let int64 = scalar_codec(&Uuid::from_u128(type_ids::STD_INT64)).unwrap();
    assert_roundtrip(&int64, Value::Int64(i64::MIN));
    assert_roundtrip(&int64, Value::Int64(i64::MAX));
    assert_roundtrip(&int64, Value::Int64(0));
    let s = scalar_codec(&Uuid::from_u128(type_ids::STD_STR)).unwrap();
    assert_roundtrip(&s, Value::Str(String::new()));
    assert_roundtrip(&s, Value::Str(String::from("hello")));
    let b = scalar_codec(&Uuid::from_u128(type_ids::STD_BYTES)).unwrap();
    assert_roundtrip(&b, Value::Bytes(Vec::new()));
    assert_roundtrip(&b, Value::Bytes(vec![0, 1, 255]));
    let j = scalar_codec(&Uuid::from_u128(type_ids::STD_JSON)).unwrap();
    assert_roundtrip(&j, Value::Json(String::new()));
    assert_roundtrip(&j, Value::Json(String::from("{\"a\":1}")));
    let boolean = scalar_codec(&Uuid::from_u128(type_ids::STD_BOOL)).unwrap();
    assert_roundtrip(&boolean, Value::Bool(true));
    assert_roundtrip(&boolean, Value::Bool(false));
    let f32c = scalar_codec(&Uuid::from_u128(type_ids::STD_FLOAT32)).unwrap();
    assert_roundtrip(&f32c, Value::Float32(1.5f32.to_bits()));
    let f64c = scalar_codec(&Uuid::from_u128(type_ids::STD_FLOAT64)).unwrap();
    assert_roundtrip(&f64c, Value::Float64((-2.25f64).to_bits()));
    let uuidc = scalar_codec(&Uuid::from_u128(type_ids::STD_UUID)).unwrap();
    assert_roundtrip(&uuidc, Value::Uuid(Uuid::from_u128(0x1234_5678_9abc_def0)));
    let durc = scalar_codec(&Uuid::from_u128(type_ids::STD_DURATION)).unwrap();
    assert_roundtrip(&durc, Value::Duration(Duration::from_micros(-42)));
    let bigc = scalar_codec(&Uuid::from_u128(type_ids::STD_BIGINT)).unwrap();
    assert_roundtrip(
        &bigc,
        Value::BigInt(BigInt { negative: true, weight: 2, digits: vec![1, 2, 3] }),
    );
    let decc = scalar_codec(&Uuid::from_u128(type_ids::STD_DECIMAL)).unwrap();
    assert_roundtrip(
        &decc,
        Value::Decimal(Decimal {
            negative: false,
            weight: 1,
            decimal_digits: 4,
            digits: vec![9999, 1],
        }),
    );
}

#[test]
fn scalar_size_classification() {
    let int64 = scalar_codec(&Uuid::from_u128(type_ids::STD_INT64)).unwrap();
    let short = [0u8; 7];
    let long = [0u8; 9];
    let exact = [0u8; 8];
    assert_eq!(int64.decode(Input::new(&short)).unwrap_err(), DecodeError::Underflow);
    assert_eq!(int64.decode(Input::new(&long)).unwrap_err(), DecodeError::ExtraData);
    assert!(value_eq(&int64.decode(Input::new(&exact)).unwrap(), &Value::Int64(0)));
}

#[test]
fn bool_byte_classification() {
    let boolean = scalar_codec(&Uuid::from_u128(type_ids::STD_BOOL)).unwrap();
    assert!(value_eq(&boolean.decode(Input::new(&[0])).unwrap(), &Value::Bool(false)));
    assert!(value_eq(&boolean.decode(Input::new(&[1])).unwrap(), &Value::Bool(true)));
    assert_eq!(boolean.decode(Input::new(&[2])).unwrap_err(), DecodeError::InvalidBool);
    assert_eq!(boolean.decode(Input::new(&[255])).unwrap_err(), DecodeError::InvalidBool);
}

#[test]
fn duration_reserved_words() {
    let durc = scalar_codec(&Uuid::from_u128(type_ids::STD_DURATION)).unwrap();
    let mut good = [0u8; 16];
    good[7] = 5; // micros = 5, days = 0, months = 0
    let decoded = durc.decode(Input::new(&good)).unwrap();
    assert!(value_eq(&decoded, &Value::Duration(Duration::from_micros(5))));
    let mut bad = [0u8; 16];
    bad[7] = 5;
    bad[11] = 1; // days = 1
    assert_eq!(durc.decode(Input::new(&bad)).unwrap_err(), DecodeError::NonZeroReservedBytes);
}

#[test]
fn empty_array_like_is_zero_header() {
    let descs = vec![
        base(type_ids::STD_INT32),
        Descriptor::Array(ArrayTypeDescriptor {
            id: Uuid::from_u128(0xa0),
            type_pos: TypePos(0),
        }),
        Descriptor::SetOf(SetDescriptor { id: Uuid::from_u128(0xa1), type_pos: TypePos(0) }),
    ];
    let array = build_codec(Some(TypePos(1)), &descs).unwrap();
    let mut out = Output::new();
    array.encode(&mut out, &Value::Array(Vec::new())).unwrap();
    assert_eq!(out.as_slice(), &[0u8; 12]);
    let set = build_codec(Some(TypePos(2)), &descs).unwrap();
    let mut out = Output::new();
    set.encode(&mut out, &Value::SetOf(Vec::new())).unwrap();
    assert_eq!(out.as_slice(), &[0u8; 12]);
}

#[test]
fn three_element_array_layout() {
    let descs = vec![
        base(type_ids::STD_INT32),
        Descriptor::Array(ArrayTypeDescriptor {
            id: Uuid::from_u128(0xa0),
            type_pos: TypePos(0),
        }),
    ];
    let array = build_codec(Some(TypePos(1)), &descs).unwrap();
    let items = Value::Array(vec![Value::Int32(7), Value::Int32(8), Value::Int32(9)]);
    let mut out = Output::new();
    array.encode(&mut out, &items).unwrap();
    let bytes = out.as_slice();
    // 20-byte header: ndims = 1, two reserved words, upper = 3, lower = 1.
    assert_eq!(&bytes[0..20], &[0, 0, 0, 1, 0, 0, 0, 0, 0, 0, 0, 0, 0, 0, 0, 3, 0, 0, 0, 1]);
    // then three elements, each a 4-byte length prefix and a 4-byte payload
    assert_eq!(&bytes[20..28], &[0, 0, 0, 4, 0, 0, 0, 7]);
    assert_eq!(&bytes[28..36], &[0, 0, 0, 4, 0, 0, 0, 8]);
    assert_eq!(&bytes[36..44], &[0, 0, 0, 4, 0, 0, 0, 9]);
    assert_eq!(bytes.len(), 44);
    assert!(value_eq(&array.decode(Input::new(bytes)).unwrap(), &items));
}

#[test]
fn enum_membership() {
    let descs = vec![Descriptor::Enumeration(EnumerationTypeDescriptor {
        id: Uuid::from_u128(0xe0),
        members: vec![String::from("red"), String::from("green")],
    })];
    let codec = build_codec(Some(TypePos(0)), &descs).unwrap();
    let decoded = codec.decode(Input::new(b"red")).unwrap();
    assert!(value_eq(&decoded, &Value::Enum(EnumValue(String::from("red")))));
    assert_eq!(
        codec.decode(Input::new(b"blue")).unwrap_err(),
        DecodeError::ExtraEnumValue
    );
    let mut out = Output::new();
    assert_eq!(
        codec.encode(&mut out, &Value::Enum(EnumValue(String::from("blue")))).unwrap_err(),
        EncodeError::MissingEnumValue
    );
}

fn object_descs() -> Vec<Descriptor> {
    vec![
        base(type_ids::STD_INT32),
        Descriptor::ObjectShape(ObjectShapeDescriptor {
            id: Uuid::from_u128(0xb0),
            elements: vec![
                ShapeElement {
                    flag_implicit: false,
                    flag_link_property: false,
                    flag_link: false,
                    name: String::from("a"),
                    type_pos: TypePos(0),
                },
                ShapeElement {
                    flag_implicit: false,
                    flag_link_property: false,
                    flag_link: false,
                    name: String::from("b"),
                    type_pos: TypePos(0),
                },
            ],
        }),
    ]
}

#[test]
fn object_round_trip_keeps_null_and_absent_apart() {
    let descs = object_descs();
    let codec = build_codec(Some(TypePos(1)), &descs).unwrap();
    let shape = match codec.decode(Input::new(&[0, 0, 0, 2, 0, 0, 0, 0, 0, 0, 0, 4, 0, 0, 0, 1, 0,
        0, 0, 0, 255, 255, 255, 255])).unwrap() {
        Value::Object { shape, fields } => {
            assert_eq!(fields.len(), 2);
            assert!(matches!(&fields[0], Some(Value::Int32(1))));
            assert!(fields[1].is_none());
            shape
        },
        other => panic!("expected an object, got {:?}", other),
    };
    let val = Value::Object { shape, fields: vec![Some(Value::Int32(1)), None] };
    let back = roundtrip(&codec, &val);
    assert!(value_eq(&val, &back));
    match back {
        Value::Object { fields, .. } => {
            assert!(matches!(&fields[0], Some(Value::Int32(1))));
            assert!(fields[1].is_none());
        },
        other => panic!("expected an object, got {:?}", other),
    }
}

#[test]
fn tuple_round_trip_both_framings() {
    let descs = vec![
        base(type_ids::STD_INT32),
        Descriptor::Tuple(TupleTypeDescriptor {
            id: Uuid::from_u128(0xc0),
            element_types: vec![TypePos(0), TypePos(0)],
        }),
    ];
    let val = Value::Tuple(vec![Value::Int32(3), Value::Int32(4)]);
    let output_codec = build_codec(Some(TypePos(1)), &descs).unwrap();
    let mut out = Output::new();
    output_codec.encode(&mut out, &val).unwrap();
    // count, then per element a reserved word, a length word and the payload
    assert_eq!(out.as_slice().len(), 4 + 2 * (4 + 4 + 4));
    assert!(value_eq(&output_codec.decode(Input::new(out.as_slice())).unwrap(), &val));

    let input_codec = build_input_codec(Some(TypePos(1)), &descs).unwrap();
    let mut out = Output::new();
    input_codec.encode(&mut out, &val).unwrap();
    // input framing drops the reserved word
    assert_eq!(out.as_slice().len(), 4 + 2 * (4 + 4));
    assert!(value_eq(&input_codec.decode(Input::new(out.as_slice())).unwrap(), &val));
}

#[test]
fn scalar_alias_resolves_to_base() {
    let descs = vec![
        base(type_ids::STD_INT64),
        Descriptor::Scalar(ScalarTypeDescriptor {
            id: Uuid::from_u128(0xd0),
            base_type_pos: TypePos(0),
        }),
    ];
    let codec = build_codec(Some(TypePos(1)), &descs).unwrap();
    assert_roundtrip(&codec, Value::Int64(77));
}

#[test]
fn build_rejects_out_of_bounds_position() {
    let descs = vec![base(type_ids::STD_INT32)];
    match build_codec(Some(TypePos(7)), &descs) {
        Err(CodecError::UnexpectedTypePos { position }) => assert_eq!(position, 7),
        other => panic!("expected an invalid-position error, got {:?}", other),
    }
    let nested = vec![Descriptor::Array(ArrayTypeDescriptor {
        id: Uuid::from_u128(0xa0),
        type_pos: TypePos(5),
    })];
    match build_codec(Some(TypePos(0)), &nested) {
        Err(CodecError::UnexpectedTypePos { position }) => assert_eq!(position, 5),
        other => panic!("expected an invalid-position error, got {:?}", other),
    }
}

#[test]
fn build_rejects_self_referential_descriptor() {
    let descs = vec![Descriptor::Array(ArrayTypeDescriptor {
        id: Uuid::from_u128(0xa0),
        type_pos: TypePos(0),
    })];
    match build_codec(Some(TypePos(0)), &descs) {
        Err(CodecError::RecursiveDescriptor { position }) => assert_eq!(position, 0),
        other => panic!("expected a recursive-descriptor error, got {:?}", other),
    }
}

#[test]
fn build_rejects_unknown_scalar() {
    let descs = vec![base(0xdead_beef)];
    match build_codec(Some(TypePos(0)), &descs) {
        Err(CodecError::UndefinedBaseScalar { uuid }) => assert_eq!(uuid, 0xdead_beef),
        other => panic!("expected an undefined-scalar error, got {:?}", other),
    }
}

#[test]
fn nothing_codec_for_absent_root() {
    let codec = build_codec(None, &[]).unwrap();
    assert!(value_eq(&codec.decode(Input(None)).unwrap(), &Value::Nothing));
    let mut out = Output::new();
    codec.encode(&mut out, &Value::Nothing).unwrap();
    assert_eq!(out.as_slice().len(), 0);
    assert_eq!(
        codec.encode(&mut out, &Value::Int32(1)).unwrap_err(),
        EncodeError::InvalidValue
    );
}

#[test]
fn kind_mismatch_is_invalid_value() {
    let codec = scalar_codec(&Uuid::from_u128(type_ids::STD_INT64)).unwrap();
    let mut out = Output::new();
    assert_eq!(codec.encode(&mut out, &Value::Bool(true)).unwrap_err(), EncodeError::InvalidValue);
}

#[test]
fn str_decode_rejects_invalid_utf8() {
    let codec = scalar_codec(&Uuid::from_u128(type_ids::STD_STR)).unwrap();
    assert_eq!(
        codec.decode(Input::new(&[0xff, 0xfe])).unwrap_err(),
        DecodeError::InvalidUtf8
    );
}

#[test]
fn json_format_tag_must_be_one() {
    let codec = scalar_codec(&Uuid::from_u128(type_ids::STD_JSON)).unwrap();
    assert_eq!(codec.decode(Input::new(&[])).unwrap_err(), DecodeError::Underflow);
    assert_eq!(
        codec.decode(Input::new(&[2, b'{', b'}'])).unwrap_err(),
        DecodeError::InvalidJsonFormat
    );
    let decoded = codec.decode(Input::new(&[1])).unwrap();
    assert!(value_eq(&decoded, &Value::Json(String::new())));
}

#[test]
fn decimal_sign_and_scale_fields() {
    let decc = scalar_codec(&Uuid::from_u128(type_ids::STD_DECIMAL)).unwrap();
    // ndigits = 0, weight = 0, sign = 0x7777 (neither positive nor negative)
    let bad_sign = [0, 0, 0, 0, 0x77, 0x77, 0, 0];
    assert_eq!(decc.decode(Input::new(&bad_sign)).unwrap_err(), DecodeError::BadSign);
    let bigc = scalar_codec(&Uuid::from_u128(type_ids::STD_BIGINT)).unwrap();
    // bigint with a non-zero scale word
    let bad_scale = [0, 0, 0, 0, 0, 0, 0, 1];
    assert_eq!(
        bigc.decode(Input::new(&bad_scale)).unwrap_err(),
        DecodeError::NonZeroReservedBytes
    );
}

#[test]
fn missing_required_element() {
    let codec = scalar_codec(&Uuid::from_u128(type_ids::STD_INT32)).unwrap();
    assert_eq!(codec.decode(Input(None)).unwrap_err(), DecodeError::MissingRequiredElement);
}

#[test]
fn value_kind_names() {
    assert_eq!(Value::Nothing.kind(), "nothing");
    assert_eq!(Value::Int16(0).kind(), "int16");
    assert_eq!(Value::SetOf(Vec::new()).kind(), "set");
    assert_eq!(Value::empty_tuple().kind(), "tuple");
    assert_eq!(Value::Enum(EnumValue(String::from("x"))).kind(), "enum");
}

#[test]
fn enum_value_interns() {
    let descs = vec![Descriptor::Enumeration(EnumerationTypeDescriptor {
        id: Uuid::from_u128(0xe0),
        members: vec![String::from("red")],
    })];
    let codec = build_codec(Some(TypePos(0)), &descs).unwrap();
    let decoded = codec.decode(Input::new(b"red")).unwrap();
    assert!(value_eq(&decoded, &Value::Enum(EnumValue(String::from("red")))));
}

#[test]
fn calendar_range_errors() {
    let datec = scalar_codec(&Uuid::from_u128(type_ids::CAL_LOCAL_DATE)).unwrap();
    // a day count far below the representable floor
    let low_days = [0x80, 0, 0, 0];
    assert_eq!(datec.decode(Input::new(&low_days)).unwrap_err(), DecodeError::InvalidDate);
    let timec = scalar_codec(&Uuid::from_u128(type_ids::CAL_LOCAL_TIME)).unwrap();
    // 86_400_000_000 microseconds: one full day, just out of range
    let full_day = [0, 0, 0, 20, 29, 215, 96, 0];
    assert_eq!(timec.decode(Input::new(&full_day)).unwrap_err(), DecodeError::InvalidDate);
    // one microsecond less decodes
    let last_micro = [0, 0, 0, 20, 29, 215, 95, 255];
    assert!(timec.decode(Input::new(&last_micro)).is_ok());
}

#[test]
fn array_dimension_count_must_be_one() {
    let descs = vec![
        base(type_ids::STD_INT32),
        Descriptor::Array(ArrayTypeDescriptor {
            id: Uuid::from_u128(0xa0),
            type_pos: TypePos(0),
        }),
    ];
    let array = build_codec(Some(TypePos(1)), &descs).unwrap();
    let two_dims = [0, 0, 0, 2, 0, 0, 0, 0, 0, 0, 0, 0];
    assert_eq!(
        array.decode(Input::new(&two_dims)).unwrap_err(),
        DecodeError::InvalidArrayShape
    );
}

#[test]
fn tuple_count_mismatch_on_decode() {
    let descs = vec![
        base(type_ids::STD_INT32),
        Descriptor::Tuple(TupleTypeDescriptor {
            id: Uuid::from_u128(0xc0),
            element_types: vec![TypePos(0), TypePos(0)],
        }),
    ];
    let codec = build_codec(Some(TypePos(1)), &descs).unwrap();
    let three_elements = [0, 0, 0, 3];
    assert_eq!(
        codec.decode(Input::new(&three_elements)).unwrap_err(),
        DecodeError::ObjectSizeMismatch
    );
}

#[test]
fn shape_mismatch_on_encode() {
    let descs = object_descs();
    let codec = build_codec(Some(TypePos(1)), &descs).unwrap();
    // too few fields for the two-field shape
    let value = match codec.decode(Input::new(&[0, 0, 0, 2, 0, 0, 0, 0, 255, 255, 255, 255, 0, 0,
        0, 0, 255, 255, 255, 255])).unwrap() {
        Value::Object { shape, .. } => Value::Object { shape, fields: vec![None] },
        other => panic!("expected an object, got {:?}", other),
    };
    let mut out = Output::new();
    assert_eq!(codec.encode(&mut out, &value).unwrap_err(), EncodeError::ObjectShapeMismatch);

    let descs = vec![
        base(type_ids::STD_INT32),
        Descriptor::Tuple(TupleTypeDescriptor {
            id: Uuid::from_u128(0xc0),
            element_types: vec![TypePos(0), TypePos(0)],
        }),
    ];
    let tuple = build_codec(Some(TypePos(1)), &descs).unwrap();
    let mut out = Output::new();
    assert_eq!(
        tuple.encode(&mut out, &Value::Tuple(vec![Value::Int32(1)])).unwrap_err(),
        EncodeError::TupleShapeMismatch
    );
}

#[test]
fn bigint_digit_count_limit() {
    let bigc = scalar_codec(&Uuid::from_u128(type_ids::STD_BIGINT)).unwrap();
    let too_long = Value::BigInt(BigInt { negative: false, weight: 0, digits: vec![1; 65536] });
    let mut out = Output::new();
    assert_eq!(bigc.encode(&mut out, &too_long).unwrap_err(), EncodeError::BigIntTooLong);
    let fits = Value::BigInt(BigInt { negative: false, weight: 0, digits: vec![1; 65535] });
    let mut out = Output::new();
    assert!(bigc.encode(&mut out, &fits).is_ok());
}

#[test]
fn annotation_nodes_are_rejected() {
    let descs = vec![Descriptor::TypeAnnotation(TypeAnnotationDescriptor {
        annotated_type: Uuid::from_u128(0x1),
        annotation: String::from("note"),
    })];
    match build_codec(Some(TypePos(0)), &descs) {
        Err(CodecError::UnexpectedAnnotation { position }) => assert_eq!(position, 0),
        other => panic!("expected an annotation error, got {:?}", other),
    }
}

#[test]
fn named_tuple_round_trip() {
    let descs = vec![
        base(type_ids::STD_INT32),
        Descriptor::NamedTuple(NamedTupleTypeDescriptor {
            id: Uuid::from_u128(0xf0),
            elements: vec![
                TupleElement { name: String::from("x"), type_pos: TypePos(0) },
                TupleElement { name: String::from("y"), type_pos: TypePos(0) },
            ],
        }),
    ];
    for codec in [
        build_codec(Some(TypePos(1)), &descs).unwrap(),
        build_input_codec(Some(TypePos(1)), &descs).unwrap(),
    ] {
        let mut out = Output::new();
        // decode a wire value first to obtain the codec's shared shape
        let probe = build_codec(Some(TypePos(1)), &descs).unwrap();
        probe
            .encode(&mut out, &Value::Tuple(Vec::new()))
            .unwrap_err();
        let val = match codec.decode(Input::new(&encode_named_pair(&codec))).unwrap() {
            Value::NamedTuple { shape, fields } => {
                assert_eq!(fields.len(), 2);
                assert!(matches!(fields[0], Value::Int32(6)));
                assert!(matches!(fields[1], Value::Int32(7)));
                Value::NamedTuple { shape, fields }
            },
            other => panic!("expected a named tuple, got {:?}", other),
        };
        let back = roundtrip(&codec, &val);
        assert!(value_eq(&val, &back));
    }
}

/// The wire bytes of a two-field named tuple holding 6 and 7, in whichever
/// framing `codec` uses.
fn encode_named_pair(codec: &Codec) -> Vec<u8> {
    let input_framing = matches!(codec, Codec::InputNamedTuple { .. });
    let mut bytes = vec![0, 0, 0, 2];
    for v in [6u8, 7u8] {
        if !input_framing {
            bytes.extend_from_slice(&[0, 0, 0, 0]);
        }
        bytes.extend_from_slice(&[0, 0, 0, 4, 0, 0, 0, v]);
    }
    bytes
}
