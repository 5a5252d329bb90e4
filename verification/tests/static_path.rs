//! Tests of the compile-time-typed decode path: descriptor checking and
//! direct decoding into known Rust types.
use edgedb_protocol::codecs::{Codec, CompositeCodec, DefaultCodec, FromIteratorCodec, ScalarCodec};
use edgedb_protocol::descriptors::{
    ArrayTypeDescriptor, BaseScalarTypeDescriptor, Descriptor, ScalarTypeDescriptor,
    TupleTypeDescriptor, TypePos,
};
use edgedb_protocol::model::{Duration, Uuid};
use edgedb_protocol::queryable::{DescriptorContext, DescriptorMismatch, Queryable};
use edgedb_protocol::serialization::Input;
use edgedb_protocol::type_ids;

fn base(id: u128) -> Descriptor {
    Descriptor::BaseScalar(BaseScalarTypeDescriptor { id: Uuid::from_u128(id) })
}

#[test]
fn tuple_field_count_mismatch() {
    // a live descriptor declaring 2 elements, checked against a static
    // 3-element tuple type
    let descs = vec![
        base(type_ids::STD_INT64),
        base(type_ids::STD_INT64),
        Descriptor::Tuple(TupleTypeDescriptor {
            id: Uuid::from_u128(0xc0),
            element_types: vec![TypePos(0), TypePos(1)],
        }),
    ];
    let ctx = DescriptorContext::new(&descs);
    let err = <(i64, i64, i64)>::check_descriptor(&ctx, TypePos(2)).unwrap_err();
    assert_eq!(err, DescriptorMismatch::FieldNumber { expected: 3, unexpected: 2 });
}

#[test]
fn tuple_check_accepts_matching_arity() {
    let descs = vec![
        base(type_ids::STD_INT64),
        base(type_ids::STD_STR),
        Descriptor::Tuple(TupleTypeDescriptor {
            id: Uuid::from_u128(0xc0),
            element_types: vec![TypePos(0), TypePos(1)],
        }),
    ];
    let ctx = DescriptorContext::new(&descs);
    assert!(<(i64, String)>::check_descriptor(&ctx, TypePos(2)).is_ok());
}

#[test]
fn scalar_check_resolves_aliases() {
    let descs = vec![
        base(type_ids::STD_INT64),
        Descriptor::Scalar(ScalarTypeDescriptor {
            id: Uuid::from_u128(0xd0),
            base_type_pos: TypePos(0),
        }),
        Descriptor::Scalar(ScalarTypeDescriptor {
            id: Uuid::from_u128(0xd1),
            base_type_pos: TypePos(1),
        }),
    ];
    let ctx = DescriptorContext::new(&descs);
    assert!(i64::check_descriptor(&ctx, TypePos(2)).is_ok());
    assert!(matches!(
        String::check_descriptor(&ctx, TypePos(2)).unwrap_err(),
        DescriptorMismatch::WrongType { .. }
    ));
    assert_eq!(
        i64::check_descriptor(&ctx, TypePos(9)).unwrap_err(),
        DescriptorMismatch::InvalidDescriptor
    );
}

#[test]
fn scalar_check_rejects_alias_cycle() {
    let descs = vec![Descriptor::Scalar(ScalarTypeDescriptor {
        id: Uuid::from_u128(0xd0),
        base_type_pos: TypePos(0),
    })];
    let ctx = DescriptorContext::new(&descs);
    assert_eq!(
        i64::check_descriptor(&ctx, TypePos(0)).unwrap_err(),
        DescriptorMismatch::InvalidDescriptor
    );
}

#[test]
fn static_scalar_decode() {
    assert_eq!(i64::decode(Input::new(&[0, 0, 0, 0, 0, 0, 1, 2])).unwrap(), 258);
    assert_eq!(i16::decode(Input::new(&[255, 255])).unwrap(), -1);
    assert_eq!(bool::decode(Input::new(&[1])).unwrap(), true);
    assert_eq!(String::decode(Input::new(b"abc")).unwrap(), "abc");
    assert_eq!(
        Duration::decode(Input::new(&[0, 0, 0, 0, 0, 0, 0, 9, 0, 0, 0, 0, 0, 0, 0, 0])).unwrap(),
        Duration::from_micros(9)
    );
}

#[test]
fn static_tuple_decode() {
    // count = 2, then each element behind a reserved word and a length word
    let bytes = [
        0, 0, 0, 2, //
        0, 0, 0, 0, 0, 0, 0, 8, 0, 0, 0, 0, 0, 0, 0, 5, //
        0, 0, 0, 0, 0, 0, 0, 2, 0, 3, //
    ];
    let (a, b) = <(i64, i16)>::decode(Input::new(&bytes)).unwrap();
    assert_eq!(a, 5);
    assert_eq!(b, 3);
    let wrong_count = [0, 0, 0, 3];
    assert!(<(i64, i16)>::decode(Input::new(&wrong_count)).is_err());
}

#[test]
fn codec_wrappers_decode_collections() {
    // array-like framing: 20-byte header for two elements, then two int32s
    let bytes = [
        0, 0, 0, 1, 0, 0, 0, 0, 0, 0, 0, 0, 0, 0, 0, 2, 0, 0, 0, 1, //
        0, 0, 0, 4, 0, 0, 0, 7, //
        0, 0, 0, 4, 0, 0, 0, 9, //
    ];
    let vec_codec = FromIteratorCodec::new(DefaultCodec);
    let items: Vec<i32> = vec_codec.decode(Input::new(&bytes)).unwrap();
    assert_eq!(items, vec![7, 9]);

    let composite = CompositeCodec(DefaultCodec);
    let opt: Option<i32> = composite.decode(Input(None)).unwrap();
    assert_eq!(opt, None);
    let opt: Option<i32> = composite.decode(Input::new(&[0, 0, 0, 5])).unwrap();
    assert_eq!(opt, Some(5));

    let descs = vec![
        base(type_ids::STD_INT32),
        Descriptor::Array(ArrayTypeDescriptor {
            id: Uuid::from_u128(0xa0),
            type_pos: TypePos(0),
        }),
    ];
    let ctx = DescriptorContext::new(&descs);
    assert!(Codec::<Vec<i32>>::check_descriptor(&vec_codec, &ctx, TypePos(1)).is_ok());
    assert!(Codec::<Vec<i32>>::check_descriptor(&vec_codec, &ctx, TypePos(0)).is_err());
    let scalar = ScalarCodec;
    assert!(Codec::<i32>::check_descriptor(&scalar, &ctx, TypePos(0)).is_ok());
}

#[test]
fn context_diagnostics() {
    let descs = vec![base(type_ids::STD_INT64)];
    let ctx = DescriptorContext::new(&descs);
    assert_eq!(
        ctx.field_number(3, 2),
        DescriptorMismatch::FieldNumber { expected: 3, unexpected: 2 }
    );
    assert_eq!(
        ctx.wrong_field("a", "b"),
        DescriptorMismatch::WrongField {
            expected: String::from("a"),
            unexpected: String::from("b")
        }
    );
    assert_eq!(
        ctx.expected("tuple"),
        DescriptorMismatch::Expected { expected: String::from("tuple") }
    );
    let desc = ctx.get(TypePos(0)).unwrap();
    assert_eq!(
        ctx.wrong_type(desc, "str"),
        DescriptorMismatch::WrongType {
            unexpected: String::from("base scalar"),
            expected: String::from("str")
        }
    );
}
