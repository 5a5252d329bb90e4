//! The primitive and tuple implementations of the compile-time-typed decode
//! path, and the generic codec wrappers over it.
use vstd::prelude::*;
use crate::decode_composite::{spec_count_header, spec_tuple_like_element, spec_array_header, spec_array_element};
use crate::descriptors::{Descriptor, TypePos};
use crate::errors::DecodeError;
use crate::queryable::{
    check_scalar, spec_check_scalar, DescriptorContext, DescriptorMismatch, MismatchV, Queryable,
};
use crate::serialization::Input;

verus! {

impl Queryable for String {
    open spec fn spec_decode(input: Option<Seq<u8>>) -> Result<<String as DeepView>::V, DecodeError> {
        match input {
            None => Err(DecodeError::MissingRequiredElement),
            Some(b) => crate::scalars::spec_decode_str(b),
        }
    }

    open spec fn spec_check(descs: Seq<Descriptor>, pos: TypePos) -> Result<(), MismatchV> {
        spec_check_scalar(descs, pos, crate::type_ids::STD_STR, "str"@, descs.len())
    }

    fn decode(input: Input<'_>) -> (r: Result<String, DecodeError>) {
        let b = input.bytes()?;
        crate::scalars::decode_str(b)
    }

    fn check_descriptor(ctx: &DescriptorContext<'_>, pos: TypePos) -> (r: Result<
        (),
        DescriptorMismatch,
    >) {
        check_scalar(ctx, pos, crate::type_ids::STD_STR, "str")
    }
}

impl Queryable for Vec<u8> {
    open spec fn spec_decode(input: Option<Seq<u8>>) -> Result<<Vec<u8> as DeepView>::V, DecodeError> {
        match input {
            None => Err(DecodeError::MissingRequiredElement),
            Some(b) => crate::scalars::spec_decode_bytes(b),
        }
    }

    open spec fn spec_check(descs: Seq<Descriptor>, pos: TypePos) -> Result<(), MismatchV> {
        spec_check_scalar(descs, pos, crate::type_ids::STD_BYTES, "bytes"@, descs.len())
    }

    fn decode(input: Input<'_>) -> (r: Result<Vec<u8>, DecodeError>) {
        let b = input.bytes()?;
        let r = crate::scalars::decode_bytes(b);
        proof {
            match &r {
                Ok(v) => {
                    assert(v.deep_view() =~= v@);
                },
                Err(..) => {},
            }
        }
        r
    }

    fn check_descriptor(ctx: &DescriptorContext<'_>, pos: TypePos) -> (r: Result<
        (),
        DescriptorMismatch,
    >) {
        check_scalar(ctx, pos, crate::type_ids::STD_BYTES, "bytes")
    }
}

impl Queryable for crate::model::Json {
    open spec fn spec_decode(input: Option<Seq<u8>>) -> Result<<crate::model::Json as DeepView>::V, DecodeError> {
        match input {
            None => Err(DecodeError::MissingRequiredElement),
            Some(b) => crate::scalars::spec_decode_json(b),
        }
    }

    open spec fn spec_check(descs: Seq<Descriptor>, pos: TypePos) -> Result<(), MismatchV> {
        spec_check_scalar(descs, pos, crate::type_ids::STD_JSON, "json"@, descs.len())
    }

    fn decode(input: Input<'_>) -> (r: Result<crate::model::Json, DecodeError>) {
        let b = input.bytes()?;
        let text = crate::scalars::decode_json(b)?;
        Ok(crate::model::Json::new_unchecked(text))
    }

    fn check_descriptor(ctx: &DescriptorContext<'_>, pos: TypePos) -> (r: Result<
        (),
        DescriptorMismatch,
    >) {
        check_scalar(ctx, pos, crate::type_ids::STD_JSON, "json")
    }
}

impl Queryable for crate::model::Uuid {
    open spec fn spec_decode(input: Option<Seq<u8>>) -> Result<<crate::model::Uuid as DeepView>::V, DecodeError> {
        match input {
            None => Err(DecodeError::MissingRequiredElement),
            Some(b) => (match crate::scalars::spec_decode_uuid(b) {
                Ok(bits) => Ok(bits),
                Err(e) => Err(e),
            }),
        }
    }

    open spec fn spec_check(descs: Seq<Descriptor>, pos: TypePos) -> Result<(), MismatchV> {
        spec_check_scalar(descs, pos, crate::type_ids::STD_UUID, "uuid"@, descs.len())
    }

    fn decode(input: Input<'_>) -> (r: Result<crate::model::Uuid, DecodeError>) {
        let b = input.bytes()?;
        crate::scalars::decode_uuid(b)
    }

    fn check_descriptor(ctx: &DescriptorContext<'_>, pos: TypePos) -> (r: Result<
        (),
        DescriptorMismatch,
    >) {
        check_scalar(ctx, pos, crate::type_ids::STD_UUID, "uuid")
    }
}

impl Queryable for bool {
    open spec fn spec_decode(input: Option<Seq<u8>>) -> Result<<bool as DeepView>::V, DecodeError> {
        match input {
            None => Err(DecodeError::MissingRequiredElement),
            Some(b) => crate::scalars::spec_decode_bool(b),
        }
    }

    open spec fn spec_check(descs: Seq<Descriptor>, pos: TypePos) -> Result<(), MismatchV> {
        spec_check_scalar(descs, pos, crate::type_ids::STD_BOOL, "bool"@, descs.len())
    }

    fn decode(input: Input<'_>) -> (r: Result<bool, DecodeError>) {
        let b = input.bytes()?;
        crate::scalars::decode_bool(b)
    }

    fn check_descriptor(ctx: &DescriptorContext<'_>, pos: TypePos) -> (r: Result<
        (),
        DescriptorMismatch,
    >) {
        check_scalar(ctx, pos, crate::type_ids::STD_BOOL, "bool")
    }
}

impl Queryable for i16 {
    open spec fn spec_decode(input: Option<Seq<u8>>) -> Result<<i16 as DeepView>::V, DecodeError> {
        match input {
            None => Err(DecodeError::MissingRequiredElement),
            Some(b) => crate::scalars::spec_decode_i16(b),
        }
    }

    open spec fn spec_check(descs: Seq<Descriptor>, pos: TypePos) -> Result<(), MismatchV> {
        spec_check_scalar(descs, pos, crate::type_ids::STD_INT16, "int16"@, descs.len())
    }

    fn decode(input: Input<'_>) -> (r: Result<i16, DecodeError>) {
        let b = input.bytes()?;
        crate::scalars::decode_i16(b)
    }

    fn check_descriptor(ctx: &DescriptorContext<'_>, pos: TypePos) -> (r: Result<
        (),
        DescriptorMismatch,
    >) {
        check_scalar(ctx, pos, crate::type_ids::STD_INT16, "int16")
    }
}

impl Queryable for i32 {
    open spec fn spec_decode(input: Option<Seq<u8>>) -> Result<<i32 as DeepView>::V, DecodeError> {
        match input {
            None => Err(DecodeError::MissingRequiredElement),
            Some(b) => crate::scalars::spec_decode_i32(b),
        }
    }

    open spec fn spec_check(descs: Seq<Descriptor>, pos: TypePos) -> Result<(), MismatchV> {
        spec_check_scalar(descs, pos, crate::type_ids::STD_INT32, "int32"@, descs.len())
    }

    fn decode(input: Input<'_>) -> (r: Result<i32, DecodeError>) {
        let b = input.bytes()?;
        crate::scalars::decode_i32(b)
    }

    fn check_descriptor(ctx: &DescriptorContext<'_>, pos: TypePos) -> (r: Result<
        (),
        DescriptorMismatch,
    >) {
        check_scalar(ctx, pos, crate::type_ids::STD_INT32, "int32")
    }
}

impl Queryable for i64 {
    open spec fn spec_decode(input: Option<Seq<u8>>) -> Result<<i64 as DeepView>::V, DecodeError> {
        match input {
            None => Err(DecodeError::MissingRequiredElement),
            Some(b) => crate::scalars::spec_decode_i64(b),
        }
    }

    open spec fn spec_check(descs: Seq<Descriptor>, pos: TypePos) -> Result<(), MismatchV> {
        spec_check_scalar(descs, pos, crate::type_ids::STD_INT64, "int64"@, descs.len())
    }

    fn decode(input: Input<'_>) -> (r: Result<i64, DecodeError>) {
        let b = input.bytes()?;
        crate::scalars::decode_i64(b)
    }

    fn check_descriptor(ctx: &DescriptorContext<'_>, pos: TypePos) -> (r: Result<
        (),
        DescriptorMismatch,
    >) {
        check_scalar(ctx, pos, crate::type_ids::STD_INT64, "int64")
    }
}

impl Queryable for crate::model::Decimal {
    open spec fn spec_decode(input: Option<Seq<u8>>) -> Result<<crate::model::Decimal as DeepView>::V, DecodeError> {
        match input {
            None => Err(DecodeError::MissingRequiredElement),
            Some(b) => crate::scalars::spec_decode_decimal(b),
        }
    }

    open spec fn spec_check(descs: Seq<Descriptor>, pos: TypePos) -> Result<(), MismatchV> {
        spec_check_scalar(descs, pos, crate::type_ids::STD_DECIMAL, "decimal"@, descs.len())
    }

    fn decode(input: Input<'_>) -> (r: Result<crate::model::Decimal, DecodeError>) {
        let b = input.bytes()?;
        crate::scalars::decode_decimal(b)
    }

    fn check_descriptor(ctx: &DescriptorContext<'_>, pos: TypePos) -> (r: Result<
        (),
        DescriptorMismatch,
    >) {
        check_scalar(ctx, pos, crate::type_ids::STD_DECIMAL, "decimal")
    }
}

impl Queryable for crate::model::BigInt {
    open spec fn spec_decode(input: Option<Seq<u8>>) -> Result<<crate::model::BigInt as DeepView>::V, DecodeError> {
        match input {
            None => Err(DecodeError::MissingRequiredElement),
            Some(b) => crate::scalars::spec_decode_bigint(b),
        }
    }

    open spec fn spec_check(descs: Seq<Descriptor>, pos: TypePos) -> Result<(), MismatchV> {
        spec_check_scalar(descs, pos, crate::type_ids::STD_BIGINT, "bigint"@, descs.len())
    }

    fn decode(input: Input<'_>) -> (r: Result<crate::model::BigInt, DecodeError>) {
        let b = input.bytes()?;
        crate::scalars::decode_bigint(b)
    }

    fn check_descriptor(ctx: &DescriptorContext<'_>, pos: TypePos) -> (r: Result<
        (),
        DescriptorMismatch,
    >) {
        check_scalar(ctx, pos, crate::type_ids::STD_BIGINT, "bigint")
    }
}

impl Queryable for crate::model::Duration {
    open spec fn spec_decode(input: Option<Seq<u8>>) -> Result<<crate::model::Duration as DeepView>::V, DecodeError> {
        match input {
            None => Err(DecodeError::MissingRequiredElement),
            Some(b) => crate::scalars::spec_decode_duration(b),
        }
    }

    open spec fn spec_check(descs: Seq<Descriptor>, pos: TypePos) -> Result<(), MismatchV> {
        spec_check_scalar(descs, pos, crate::type_ids::STD_DURATION, "duration"@, descs.len())
    }

    fn decode(input: Input<'_>) -> (r: Result<crate::model::Duration, DecodeError>) {
        let b = input.bytes()?;
        crate::scalars::decode_duration(b)
    }

    fn check_descriptor(ctx: &DescriptorContext<'_>, pos: TypePos) -> (r: Result<
        (),
        DescriptorMismatch,
    >) {
        check_scalar(ctx, pos, crate::type_ids::STD_DURATION, "duration")
    }
}

impl Queryable for crate::model::Datetime {
    open spec fn spec_decode(input: Option<Seq<u8>>) -> Result<<crate::model::Datetime as DeepView>::V, DecodeError> {
        match input {
            None => Err(DecodeError::MissingRequiredElement),
            Some(b) => crate::scalars::spec_decode_i64(b),
        }
    }

    open spec fn spec_check(descs: Seq<Descriptor>, pos: TypePos) -> Result<(), MismatchV> {
        spec_check_scalar(descs, pos, crate::type_ids::STD_DATETIME, "datetime"@, descs.len())
    }

    fn decode(input: Input<'_>) -> (r: Result<crate::model::Datetime, DecodeError>) {
        let b = input.bytes()?;
        crate::scalars::decode_datetime(b)
    }

    fn check_descriptor(ctx: &DescriptorContext<'_>, pos: TypePos) -> (r: Result<
        (),
        DescriptorMismatch,
    >) {
        check_scalar(ctx, pos, crate::type_ids::STD_DATETIME, "datetime")
    }
}

impl Queryable for crate::model::LocalDatetime {
    open spec fn spec_decode(input: Option<Seq<u8>>) -> Result<<crate::model::LocalDatetime as DeepView>::V, DecodeError> {
        match input {
            None => Err(DecodeError::MissingRequiredElement),
            Some(b) => crate::scalars::spec_decode_i64(b),
        }
    }

    open spec fn spec_check(descs: Seq<Descriptor>, pos: TypePos) -> Result<(), MismatchV> {
        spec_check_scalar(descs, pos, crate::type_ids::CAL_LOCAL_DATETIME, "cal::local_datetime"@, descs.len())
    }

    fn decode(input: Input<'_>) -> (r: Result<crate::model::LocalDatetime, DecodeError>) {
        let b = input.bytes()?;
        crate::scalars::decode_local_datetime(b)
    }

    fn check_descriptor(ctx: &DescriptorContext<'_>, pos: TypePos) -> (r: Result<
        (),
        DescriptorMismatch,
    >) {
        check_scalar(ctx, pos, crate::type_ids::CAL_LOCAL_DATETIME, "cal::local_datetime")
    }
}

impl Queryable for crate::model::LocalDate {
    open spec fn spec_decode(input: Option<Seq<u8>>) -> Result<<crate::model::LocalDate as DeepView>::V, DecodeError> {
        match input {
            None => Err(DecodeError::MissingRequiredElement),
            Some(b) => crate::scalars::spec_decode_local_date(b),
        }
    }

    open spec fn spec_check(descs: Seq<Descriptor>, pos: TypePos) -> Result<(), MismatchV> {
        spec_check_scalar(descs, pos, crate::type_ids::CAL_LOCAL_DATE, "cal::local_date"@, descs.len())
    }

    fn decode(input: Input<'_>) -> (r: Result<crate::model::LocalDate, DecodeError>) {
        let b = input.bytes()?;
        crate::scalars::decode_local_date(b)
    }

    fn check_descriptor(ctx: &DescriptorContext<'_>, pos: TypePos) -> (r: Result<
        (),
        DescriptorMismatch,
    >) {
        check_scalar(ctx, pos, crate::type_ids::CAL_LOCAL_DATE, "cal::local_date")
    }
}

impl Queryable for crate::model::LocalTime {
    open spec fn spec_decode(input: Option<Seq<u8>>) -> Result<<crate::model::LocalTime as DeepView>::V, DecodeError> {
        match input {
            None => Err(DecodeError::MissingRequiredElement),
            Some(b) => crate::scalars::spec_decode_local_time(b),
        }
    }

    open spec fn spec_check(descs: Seq<Descriptor>, pos: TypePos) -> Result<(), MismatchV> {
        spec_check_scalar(descs, pos, crate::type_ids::CAL_LOCAL_TIME, "cal::local_time"@, descs.len())
    }

    fn decode(input: Input<'_>) -> (r: Result<crate::model::LocalTime, DecodeError>) {
        let b = input.bytes()?;
        crate::scalars::decode_local_time(b)
    }

    fn check_descriptor(ctx: &DescriptorContext<'_>, pos: TypePos) -> (r: Result<
        (),
        DescriptorMismatch,
    >) {
        check_scalar(ctx, pos, crate::type_ids::CAL_LOCAL_TIME, "cal::local_time")
    }
}

impl<T0: Queryable> Queryable for (T0,) {
    open spec fn spec_decode(input: Option<Seq<u8>>) -> Result<(T0::V,), DecodeError> {
        match input {
            None => Err(DecodeError::MissingRequiredElement),
            Some(s) => match spec_count_header(s) {
                Err(e) => Err(e),
                Ok(count) => if count != 1 {
                    Err(DecodeError::ObjectSizeMismatch)
                } else {
                    match spec_tuple_like_element(s, 4) {
            Err(e) => Err(e),
            Ok((sp0, off1)) => match T0::spec_decode(sp0) {
                Err(e) => Err(e),
                Ok(v0) => Ok((v0,)),
            },
        }
                },
            },
        }
    }

    open spec fn spec_check(descs: Seq<Descriptor>, pos: TypePos) -> Result<(), MismatchV> {
        if pos.0 as int >= descs.len() {
            Err(MismatchV::InvalidDescriptor)
        } else {
            match descs[pos.0 as int] {
                Descriptor::Tuple(d) => if d.element_types@.len() != 1 {
                    Err(
                        MismatchV::FieldNumber {
                            expected: 1,
                            unexpected: d.element_types@.len() as int,
                        },
                    )
                } else {
                    match T0::spec_check(descs, d.element_types@[0]) {
                    Err(m) => Err(m),
                    Ok(..) => Ok(()),
                }
                },
                _ => Err(
                    MismatchV::WrongType {
                        unexpected: descs[pos.0 as int].spec_kind_name(),
                        expected: "tuple"@,
                    },
                ),
            }
        }
    }

    fn decode(input: Input<'_>) -> (r: Result<(T0,), DecodeError>) {
        let s = input.bytes()?;
        let count = crate::decode_composite::read_count_header(s)?;
        if count != 1 {
            return Err(DecodeError::ObjectSizeMismatch);
        }
        let (e0, p1) = crate::decode_composite::read_tuple_like_element(s, 4)?;
        let v0 = T0::decode(e0)?;
        Ok((v0,))
    }

    fn check_descriptor(ctx: &DescriptorContext<'_>, pos: TypePos) -> (r: Result<
        (),
        DescriptorMismatch,
    >) {
        let desc = ctx.get(pos)?;
        match desc {
            Descriptor::Tuple(d) => {
                if d.element_types.len() != 1 {
                    return Err(ctx.field_number(1, d.element_types.len()));
                }
                T0::check_descriptor(ctx, d.element_types[0])?;
                Ok(())
            },
            _ => Err(ctx.wrong_type(desc, "tuple")),
        }
    }
}

impl<T0: Queryable, T1: Queryable> Queryable for (T0, T1) {
    open spec fn spec_decode(input: Option<Seq<u8>>) -> Result<(T0::V, T1::V), DecodeError> {
        match input {
            None => Err(DecodeError::MissingRequiredElement),
            Some(s) => match spec_count_header(s) {
                Err(e) => Err(e),
                Ok(count) => if count != 2 {
                    Err(DecodeError::ObjectSizeMismatch)
                } else {
                    match spec_tuple_like_element(s, 4) {
            Err(e) => Err(e),
            Ok((sp0, off1)) => match T0::spec_decode(sp0) {
                Err(e) => Err(e),
                Ok(v0) => match spec_tuple_like_element(s, off1) {
            Err(e) => Err(e),
            Ok((sp1, off2)) => match T1::spec_decode(sp1) {
                Err(e) => Err(e),
                Ok(v1) => Ok((v0, v1)),
            },
        },
            },
        }
                },
            },
        }
    }

    open spec fn spec_check(descs: Seq<Descriptor>, pos: TypePos) -> Result<(), MismatchV> {
        if pos.0 as int >= descs.len() {
            Err(MismatchV::InvalidDescriptor)
        } else {
            match descs[pos.0 as int] {
                Descriptor::Tuple(d) => if d.element_types@.len() != 2 {
                    Err(
                        MismatchV::FieldNumber {
                            expected: 2,
                            unexpected: d.element_types@.len() as int,
                        },
                    )
                } else {
                    match T0::spec_check(descs, d.element_types@[0]) {
                    Err(m) => Err(m),
                    Ok(..) => match T1::spec_check(descs, d.element_types@[1]) {
                    Err(m) => Err(m),
                    Ok(..) => Ok(()),
                },
                }
                },
                _ => Err(
                    MismatchV::WrongType {
                        unexpected: descs[pos.0 as int].spec_kind_name(),
                        expected: "tuple"@,
                    },
                ),
            }
        }
    }

    fn decode(input: Input<'_>) -> (r: Result<(T0, T1), DecodeError>) {
        let s = input.bytes()?;
        let count = crate::decode_composite::read_count_header(s)?;
        if count != 2 {
            return Err(DecodeError::ObjectSizeMismatch);
        }
        let (e0, p1) = crate::decode_composite::read_tuple_like_element(s, 4)?;
        let v0 = T0::decode(e0)?;
        let (e1, p2) = crate::decode_composite::read_tuple_like_element(s, p1)?;
        let v1 = T1::decode(e1)?;
        Ok((v0, v1))
    }

    fn check_descriptor(ctx: &DescriptorContext<'_>, pos: TypePos) -> (r: Result<
        (),
        DescriptorMismatch,
    >) {
        let desc = ctx.get(pos)?;
        match desc {
            Descriptor::Tuple(d) => {
                if d.element_types.len() != 2 {
                    return Err(ctx.field_number(2, d.element_types.len()));
                }
                T0::check_descriptor(ctx, d.element_types[0])?;
                T1::check_descriptor(ctx, d.element_types[1])?;
                Ok(())
            },
            _ => Err(ctx.wrong_type(desc, "tuple")),
        }
    }
}

impl<T0: Queryable, T1: Queryable, T2: Queryable> Queryable for (T0, T1, T2) {
    open spec fn spec_decode(input: Option<Seq<u8>>) -> Result<(T0::V, T1::V, T2::V), DecodeError> {
        match input {
            None => Err(DecodeError::MissingRequiredElement),
            Some(s) => match spec_count_header(s) {
                Err(e) => Err(e),
                Ok(count) => if count != 3 {
                    Err(DecodeError::ObjectSizeMismatch)
                } else {
                    match spec_tuple_like_element(s, 4) {
            Err(e) => Err(e),
            Ok((sp0, off1)) => match T0::spec_decode(sp0) {
                Err(e) => Err(e),
                Ok(v0) => match spec_tuple_like_element(s, off1) {
            Err(e) => Err(e),
            Ok((sp1, off2)) => match T1::spec_decode(sp1) {
                Err(e) => Err(e),
                Ok(v1) => match spec_tuple_like_element(s, off2) {
            Err(e) => Err(e),
            Ok((sp2, off3)) => match T2::spec_decode(sp2) {
                Err(e) => Err(e),
                Ok(v2) => Ok((v0, v1, v2)),
            },
        },
            },
        },
            },
        }
                },
            },
        }
    }

    open spec fn spec_check(descs: Seq<Descriptor>, pos: TypePos) -> Result<(), MismatchV> {
        if pos.0 as int >= descs.len() {
            Err(MismatchV::InvalidDescriptor)
        } else {
            match descs[pos.0 as int] {
                Descriptor::Tuple(d) => if d.element_types@.len() != 3 {
                    Err(
                        MismatchV::FieldNumber {
                            expected: 3,
                            unexpected: d.element_types@.len() as int,
                        },
                    )
                } else {
                    match T0::spec_check(descs, d.element_types@[0]) {
                    Err(m) => Err(m),
                    Ok(..) => match T1::spec_check(descs, d.element_types@[1]) {
                    Err(m) => Err(m),
                    Ok(..) => match T2::spec_check(descs, d.element_types@[2]) {
                    Err(m) => Err(m),
                    Ok(..) => Ok(()),
                },
                },
                }
                },
                _ => Err(
                    MismatchV::WrongType {
                        unexpected: descs[pos.0 as int].spec_kind_name(),
                        expected: "tuple"@,
                    },
                ),
            }
        }
    }

    fn decode(input: Input<'_>) -> (r: Result<(T0, T1, T2), DecodeError>) {
        let s = input.bytes()?;
        let count = crate::decode_composite::read_count_header(s)?;
        if count != 3 {
            return Err(DecodeError::ObjectSizeMismatch);
        }
        let (e0, p1) = crate::decode_composite::read_tuple_like_element(s, 4)?;
        let v0 = T0::decode(e0)?;
        let (e1, p2) = crate::decode_composite::read_tuple_like_element(s, p1)?;
        let v1 = T1::decode(e1)?;
        let (e2, p3) = crate::decode_composite::read_tuple_like_element(s, p2)?;
        let v2 = T2::decode(e2)?;
        Ok((v0, v1, v2))
    }

    fn check_descriptor(ctx: &DescriptorContext<'_>, pos: TypePos) -> (r: Result<
        (),
        DescriptorMismatch,
    >) {
        let desc = ctx.get(pos)?;
        match desc {
            Descriptor::Tuple(d) => {
                if d.element_types.len() != 3 {
                    return Err(ctx.field_number(3, d.element_types.len()));
                }
                T0::check_descriptor(ctx, d.element_types[0])?;
                T1::check_descriptor(ctx, d.element_types[1])?;
                T2::check_descriptor(ctx, d.element_types[2])?;
                Ok(())
            },
            _ => Err(ctx.wrong_type(desc, "tuple")),
        }
    }
}

impl<T0: Queryable, T1: Queryable, T2: Queryable, T3: Queryable> Queryable for (T0, T1, T2, T3) {
    open spec fn spec_decode(input: Option<Seq<u8>>) -> Result<(T0::V, T1::V, T2::V, T3::V), DecodeError> {
        match input {
            None => Err(DecodeError::MissingRequiredElement),
            Some(s) => match spec_count_header(s) {
                Err(e) => Err(e),
                Ok(count) => if count != 4 {
                    Err(DecodeError::ObjectSizeMismatch)
                } else {
                    match spec_tuple_like_element(s, 4) {
            Err(e) => Err(e),
            Ok((sp0, off1)) => match T0::spec_decode(sp0) {
                Err(e) => Err(e),
                Ok(v0) => match spec_tuple_like_element(s, off1) {
            Err(e) => Err(e),
            Ok((sp1, off2)) => match T1::spec_decode(sp1) {
                Err(e) => Err(e),
                Ok(v1) => match spec_tuple_like_element(s, off2) {
            Err(e) => Err(e),
            Ok((sp2, off3)) => match T2::spec_decode(sp2) {
                Err(e) => Err(e),
                Ok(v2) => match spec_tuple_like_element(s, off3) {
            Err(e) => Err(e),
            Ok((sp3, off4)) => match T3::spec_decode(sp3) {
                Err(e) => Err(e),
                Ok(v3) => Ok((v0, v1, v2, v3)),
            },
        },
            },
        },
            },
        },
            },
        }
                },
            },
        }
    }

    open spec fn spec_check(descs: Seq<Descriptor>, pos: TypePos) -> Result<(), MismatchV> {
        if pos.0 as int >= descs.len() {
            Err(MismatchV::InvalidDescriptor)
        } else {
            match descs[pos.0 as int] {
                Descriptor::Tuple(d) => if d.element_types@.len() != 4 {
                    Err(
                        MismatchV::FieldNumber {
                            expected: 4,
                            unexpected: d.element_types@.len() as int,
                        },
                    )
                } else {
                    match T0::spec_check(descs, d.element_types@[0]) {
                    Err(m) => Err(m),
                    Ok(..) => match T1::spec_check(descs, d.element_types@[1]) {
                    Err(m) => Err(m),
                    Ok(..) => match T2::spec_check(descs, d.element_types@[2]) {
                    Err(m) => Err(m),
                    Ok(..) => match T3::spec_check(descs, d.element_types@[3]) {
                    Err(m) => Err(m),
                    Ok(..) => Ok(()),
                },
                },
                },
                }
                },
                _ => Err(
                    MismatchV::WrongType {
                        unexpected: descs[pos.0 as int].spec_kind_name(),
                        expected: "tuple"@,
                    },
                ),
            }
        }
    }

    fn decode(input: Input<'_>) -> (r: Result<(T0, T1, T2, T3), DecodeError>) {
        let s = input.bytes()?;
        let count = crate::decode_composite::read_count_header(s)?;
        if count != 4 {
            return Err(DecodeError::ObjectSizeMismatch);
        }
        let (e0, p1) = crate::decode_composite::read_tuple_like_element(s, 4)?;
        let v0 = T0::decode(e0)?;
        let (e1, p2) = crate::decode_composite::read_tuple_like_element(s, p1)?;
        let v1 = T1::decode(e1)?;
        let (e2, p3) = crate::decode_composite::read_tuple_like_element(s, p2)?;
        let v2 = T2::decode(e2)?;
        let (e3, p4) = crate::decode_composite::read_tuple_like_element(s, p3)?;
        let v3 = T3::decode(e3)?;
        Ok((v0, v1, v2, v3))
    }

    fn check_descriptor(ctx: &DescriptorContext<'_>, pos: TypePos) -> (r: Result<
        (),
        DescriptorMismatch,
    >) {
        let desc = ctx.get(pos)?;
        match desc {
            Descriptor::Tuple(d) => {
                if d.element_types.len() != 4 {
                    return Err(ctx.field_number(4, d.element_types.len()));
                }
                T0::check_descriptor(ctx, d.element_types[0])?;
                T1::check_descriptor(ctx, d.element_types[1])?;
                T2::check_descriptor(ctx, d.element_types[2])?;
                T3::check_descriptor(ctx, d.element_types[3])?;
                Ok(())
            },
            _ => Err(ctx.wrong_type(desc, "tuple")),
        }
    }
}

impl<T0: Queryable, T1: Queryable, T2: Queryable, T3: Queryable, T4: Queryable> Queryable for (T0, T1, T2, T3, T4) {
    open spec fn spec_decode(input: Option<Seq<u8>>) -> Result<(T0::V, T1::V, T2::V, T3::V, T4::V), DecodeError> {
        match input {
            None => Err(DecodeError::MissingRequiredElement),
            Some(s) => match spec_count_header(s) {
                Err(e) => Err(e),
                Ok(count) => if count != 5 {
                    Err(DecodeError::ObjectSizeMismatch)
                } else {
                    match spec_tuple_like_element(s, 4) {
            Err(e) => Err(e),
            Ok((sp0, off1)) => match T0::spec_decode(sp0) {
                Err(e) => Err(e),
                Ok(v0) => match spec_tuple_like_element(s, off1) {
            Err(e) => Err(e),
            Ok((sp1, off2)) => match T1::spec_decode(sp1) {
                Err(e) => Err(e),
                Ok(v1) => match spec_tuple_like_element(s, off2) {
            Err(e) => Err(e),
            Ok((sp2, off3)) => match T2::spec_decode(sp2) {
                Err(e) => Err(e),
                Ok(v2) => match spec_tuple_like_element(s, off3) {
            Err(e) => Err(e),
            Ok((sp3, off4)) => match T3::spec_decode(sp3) {
                Err(e) => Err(e),
                Ok(v3) => match spec_tuple_like_element(s, off4) {
            Err(e) => Err(e),
            Ok((sp4, off5)) => match T4::spec_decode(sp4) {
                Err(e) => Err(e),
                Ok(v4) => Ok((v0, v1, v2, v3, v4)),
            },
        },
            },
        },
            },
        },
            },
        },
            },
        }
                },
            },
        }
    }

    open spec fn spec_check(descs: Seq<Descriptor>, pos: TypePos) -> Result<(), MismatchV> {
        if pos.0 as int >= descs.len() {
            Err(MismatchV::InvalidDescriptor)
        } else {
            match descs[pos.0 as int] {
                Descriptor::Tuple(d) => if d.element_types@.len() != 5 {
                    Err(
                        MismatchV::FieldNumber {
                            expected: 5,
                            unexpected: d.element_types@.len() as int,
                        },
                    )
                } else {
                    match T0::spec_check(descs, d.element_types@[0]) {
                    Err(m) => Err(m),
                    Ok(..) => match T1::spec_check(descs, d.element_types@[1]) {
                    Err(m) => Err(m),
                    Ok(..) => match T2::spec_check(descs, d.element_types@[2]) {
                    Err(m) => Err(m),
                    Ok(..) => match T3::spec_check(descs, d.element_types@[3]) {
                    Err(m) => Err(m),
                    Ok(..) => match T4::spec_check(descs, d.element_types@[4]) {
                    Err(m) => Err(m),
                    Ok(..) => Ok(()),
                },
                },
                },
                },
                }
                },
                _ => Err(
                    MismatchV::WrongType {
                        unexpected: descs[pos.0 as int].spec_kind_name(),
                        expected: "tuple"@,
                    },
                ),
            }
        }
    }

    fn decode(input: Input<'_>) -> (r: Result<(T0, T1, T2, T3, T4), DecodeError>) {
        let s = input.bytes()?;
        let count = crate::decode_composite::read_count_header(s)?;
        if count != 5 {
            return Err(DecodeError::ObjectSizeMismatch);
        }
        let (e0, p1) = crate::decode_composite::read_tuple_like_element(s, 4)?;
        let v0 = T0::decode(e0)?;
        let (e1, p2) = crate::decode_composite::read_tuple_like_element(s, p1)?;
        let v1 = T1::decode(e1)?;
        let (e2, p3) = crate::decode_composite::read_tuple_like_element(s, p2)?;
        let v2 = T2::decode(e2)?;
        let (e3, p4) = crate::decode_composite::read_tuple_like_element(s, p3)?;
        let v3 = T3::decode(e3)?;
        let (e4, p5) = crate::decode_composite::read_tuple_like_element(s, p4)?;
        let v4 = T4::decode(e4)?;
        Ok((v0, v1, v2, v3, v4))
    }

    fn check_descriptor(ctx: &DescriptorContext<'_>, pos: TypePos) -> (r: Result<
        (),
        DescriptorMismatch,
    >) {
        let desc = ctx.get(pos)?;
        match desc {
            Descriptor::Tuple(d) => {
                if d.element_types.len() != 5 {
                    return Err(ctx.field_number(5, d.element_types.len()));
                }
                T0::check_descriptor(ctx, d.element_types[0])?;
                T1::check_descriptor(ctx, d.element_types[1])?;
                T2::check_descriptor(ctx, d.element_types[2])?;
                T3::check_descriptor(ctx, d.element_types[3])?;
                T4::check_descriptor(ctx, d.element_types[4])?;
                Ok(())
            },
            _ => Err(ctx.wrong_type(desc, "tuple")),
        }
    }
}

impl<T0: Queryable, T1: Queryable, T2: Queryable, T3: Queryable, T4: Queryable, T5: Queryable> Queryable for (T0, T1, T2, T3, T4, T5) {
    open spec fn spec_decode(input: Option<Seq<u8>>) -> Result<(T0::V, T1::V, T2::V, T3::V, T4::V, T5::V), DecodeError> {
        match input {
            None => Err(DecodeError::MissingRequiredElement),
            Some(s) => match spec_count_header(s) {
                Err(e) => Err(e),
                Ok(count) => if count != 6 {
                    Err(DecodeError::ObjectSizeMismatch)
                } else {
                    match spec_tuple_like_element(s, 4) {
            Err(e) => Err(e),
            Ok((sp0, off1)) => match T0::spec_decode(sp0) {
                Err(e) => Err(e),
                Ok(v0) => match spec_tuple_like_element(s, off1) {
            Err(e) => Err(e),
            Ok((sp1, off2)) => match T1::spec_decode(sp1) {
                Err(e) => Err(e),
                Ok(v1) => match spec_tuple_like_element(s, off2) {
            Err(e) => Err(e),
            Ok((sp2, off3)) => match T2::spec_decode(sp2) {
                Err(e) => Err(e),
                Ok(v2) => match spec_tuple_like_element(s, off3) {
            Err(e) => Err(e),
            Ok((sp3, off4)) => match T3::spec_decode(sp3) {
                Err(e) => Err(e),
                Ok(v3) => match spec_tuple_like_element(s, off4) {
            Err(e) => Err(e),
            Ok((sp4, off5)) => match T4::spec_decode(sp4) {
                Err(e) => Err(e),
                Ok(v4) => match spec_tuple_like_element(s, off5) {
            Err(e) => Err(e),
            Ok((sp5, off6)) => match T5::spec_decode(sp5) {
                Err(e) => Err(e),
                Ok(v5) => Ok((v0, v1, v2, v3, v4, v5)),
            },
        },
            },
        },
            },
        },
            },
        },
            },
        },
            },
        }
                },
            },
        }
    }

    open spec fn spec_check(descs: Seq<Descriptor>, pos: TypePos) -> Result<(), MismatchV> {
        if pos.0 as int >= descs.len() {
            Err(MismatchV::InvalidDescriptor)
        } else {
            match descs[pos.0 as int] {
                Descriptor::Tuple(d) => if d.element_types@.len() != 6 {
                    Err(
                        MismatchV::FieldNumber {
                            expected: 6,
                            unexpected: d.element_types@.len() as int,
                        },
                    )
                } else {
                    match T0::spec_check(descs, d.element_types@[0]) {
                    Err(m) => Err(m),
                    Ok(..) => match T1::spec_check(descs, d.element_types@[1]) {
                    Err(m) => Err(m),
                    Ok(..) => match T2::spec_check(descs, d.element_types@[2]) {
                    Err(m) => Err(m),
                    Ok(..) => match T3::spec_check(descs, d.element_types@[3]) {
                    Err(m) => Err(m),
                    Ok(..) => match T4::spec_check(descs, d.element_types@[4]) {
                    Err(m) => Err(m),
                    Ok(..) => match T5::spec_check(descs, d.element_types@[5]) {
                    Err(m) => Err(m),
                    Ok(..) => Ok(()),
                },
                },
                },
                },
                },
                }
                },
                _ => Err(
                    MismatchV::WrongType {
                        unexpected: descs[pos.0 as int].spec_kind_name(),
                        expected: "tuple"@,
                    },
                ),
            }
        }
    }

    fn decode(input: Input<'_>) -> (r: Result<(T0, T1, T2, T3, T4, T5), DecodeError>) {
        let s = input.bytes()?;
        let count = crate::decode_composite::read_count_header(s)?;
        if count != 6 {
            return Err(DecodeError::ObjectSizeMismatch);
        }
        let (e0, p1) = crate::decode_composite::read_tuple_like_element(s, 4)?;
        let v0 = T0::decode(e0)?;
        let (e1, p2) = crate::decode_composite::read_tuple_like_element(s, p1)?;
        let v1 = T1::decode(e1)?;
        let (e2, p3) = crate::decode_composite::read_tuple_like_element(s, p2)?;
        let v2 = T2::decode(e2)?;
        let (e3, p4) = crate::decode_composite::read_tuple_like_element(s, p3)?;
        let v3 = T3::decode(e3)?;
        let (e4, p5) = crate::decode_composite::read_tuple_like_element(s, p4)?;
        let v4 = T4::decode(e4)?;
        let (e5, p6) = crate::decode_composite::read_tuple_like_element(s, p5)?;
        let v5 = T5::decode(e5)?;
        Ok((v0, v1, v2, v3, v4, v5))
    }

    fn check_descriptor(ctx: &DescriptorContext<'_>, pos: TypePos) -> (r: Result<
        (),
        DescriptorMismatch,
    >) {
        let desc = ctx.get(pos)?;
        match desc {
            Descriptor::Tuple(d) => {
                if d.element_types.len() != 6 {
                    return Err(ctx.field_number(6, d.element_types.len()));
                }
                T0::check_descriptor(ctx, d.element_types[0])?;
                T1::check_descriptor(ctx, d.element_types[1])?;
                T2::check_descriptor(ctx, d.element_types[2])?;
                T3::check_descriptor(ctx, d.element_types[3])?;
                T4::check_descriptor(ctx, d.element_types[4])?;
                T5::check_descriptor(ctx, d.element_types[5])?;
                Ok(())
            },
            _ => Err(ctx.wrong_type(desc, "tuple")),
        }
    }
}

impl<T0: Queryable, T1: Queryable, T2: Queryable, T3: Queryable, T4: Queryable, T5: Queryable, T6: Queryable> Queryable for (T0, T1, T2, T3, T4, T5, T6) {
    open spec fn spec_decode(input: Option<Seq<u8>>) -> Result<(T0::V, T1::V, T2::V, T3::V, T4::V, T5::V, T6::V), DecodeError> {
        match input {
            None => Err(DecodeError::MissingRequiredElement),
            Some(s) => match spec_count_header(s) {
                Err(e) => Err(e),
                Ok(count) => if count != 7 {
                    Err(DecodeError::ObjectSizeMismatch)
                } else {
                    match spec_tuple_like_element(s, 4) {
            Err(e) => Err(e),
            Ok((sp0, off1)) => match T0::spec_decode(sp0) {
                Err(e) => Err(e),
                Ok(v0) => match spec_tuple_like_element(s, off1) {
            Err(e) => Err(e),
            Ok((sp1, off2)) => match T1::spec_decode(sp1) {
                Err(e) => Err(e),
                Ok(v1) => match spec_tuple_like_element(s, off2) {
            Err(e) => Err(e),
            Ok((sp2, off3)) => match T2::spec_decode(sp2) {
                Err(e) => Err(e),
                Ok(v2) => match spec_tuple_like_element(s, off3) {
            Err(e) => Err(e),
            Ok((sp3, off4)) => match T3::spec_decode(sp3) {
                Err(e) => Err(e),
                Ok(v3) => match spec_tuple_like_element(s, off4) {
            Err(e) => Err(e),
            Ok((sp4, off5)) => match T4::spec_decode(sp4) {
                Err(e) => Err(e),
                Ok(v4) => match spec_tuple_like_element(s, off5) {
            Err(e) => Err(e),
            Ok((sp5, off6)) => match T5::spec_decode(sp5) {
                Err(e) => Err(e),
                Ok(v5) => match spec_tuple_like_element(s, off6) {
            Err(e) => Err(e),
            Ok((sp6, off7)) => match T6::spec_decode(sp6) {
                Err(e) => Err(e),
                Ok(v6) => Ok((v0, v1, v2, v3, v4, v5, v6)),
            },
        },
            },
        },
            },
        },
            },
        },
            },
        },
            },
        },
            },
        }
                },
            },
        }
    }

    open spec fn spec_check(descs: Seq<Descriptor>, pos: TypePos) -> Result<(), MismatchV> {
        if pos.0 as int >= descs.len() {
            Err(MismatchV::InvalidDescriptor)
        } else {
            match descs[pos.0 as int] {
                Descriptor::Tuple(d) => if d.element_types@.len() != 7 {
                    Err(
                        MismatchV::FieldNumber {
                            expected: 7,
                            unexpected: d.element_types@.len() as int,
                        },
                    )
                } else {
                    match T0::spec_check(descs, d.element_types@[0]) {
                    Err(m) => Err(m),
                    Ok(..) => match T1::spec_check(descs, d.element_types@[1]) {
                    Err(m) => Err(m),
                    Ok(..) => match T2::spec_check(descs, d.element_types@[2]) {
                    Err(m) => Err(m),
                    Ok(..) => match T3::spec_check(descs, d.element_types@[3]) {
                    Err(m) => Err(m),
                    Ok(..) => match T4::spec_check(descs, d.element_types@[4]) {
                    Err(m) => Err(m),
                    Ok(..) => match T5::spec_check(descs, d.element_types@[5]) {
                    Err(m) => Err(m),
                    Ok(..) => match T6::spec_check(descs, d.element_types@[6]) {
                    Err(m) => Err(m),
                    Ok(..) => Ok(()),
                },
                },
                },
                },
                },
                },
                }
                },
                _ => Err(
                    MismatchV::WrongType {
                        unexpected: descs[pos.0 as int].spec_kind_name(),
                        expected: "tuple"@,
                    },
                ),
            }
        }
    }

    fn decode(input: Input<'_>) -> (r: Result<(T0, T1, T2, T3, T4, T5, T6), DecodeError>) {
        let s = input.bytes()?;
        let count = crate::decode_composite::read_count_header(s)?;
        if count != 7 {
            return Err(DecodeError::ObjectSizeMismatch);
        }
        let (e0, p1) = crate::decode_composite::read_tuple_like_element(s, 4)?;
        let v0 = T0::decode(e0)?;
        let (e1, p2) = crate::decode_composite::read_tuple_like_element(s, p1)?;
        let v1 = T1::decode(e1)?;
        let (e2, p3) = crate::decode_composite::read_tuple_like_element(s, p2)?;
        let v2 = T2::decode(e2)?;
        let (e3, p4) = crate::decode_composite::read_tuple_like_element(s, p3)?;
        let v3 = T3::decode(e3)?;
        let (e4, p5) = crate::decode_composite::read_tuple_like_element(s, p4)?;
        let v4 = T4::decode(e4)?;
        let (e5, p6) = crate::decode_composite::read_tuple_like_element(s, p5)?;
        let v5 = T5::decode(e5)?;
        let (e6, p7) = crate::decode_composite::read_tuple_like_element(s, p6)?;
        let v6 = T6::decode(e6)?;
        Ok((v0, v1, v2, v3, v4, v5, v6))
    }

    fn check_descriptor(ctx: &DescriptorContext<'_>, pos: TypePos) -> (r: Result<
        (),
        DescriptorMismatch,
    >) {
        let desc = ctx.get(pos)?;
        match desc {
            Descriptor::Tuple(d) => {
                if d.element_types.len() != 7 {
                    return Err(ctx.field_number(7, d.element_types.len()));
                }
                T0::check_descriptor(ctx, d.element_types[0])?;
                T1::check_descriptor(ctx, d.element_types[1])?;
                T2::check_descriptor(ctx, d.element_types[2])?;
                T3::check_descriptor(ctx, d.element_types[3])?;
                T4::check_descriptor(ctx, d.element_types[4])?;
                T5::check_descriptor(ctx, d.element_types[5])?;
                T6::check_descriptor(ctx, d.element_types[6])?;
                Ok(())
            },
            _ => Err(ctx.wrong_type(desc, "tuple")),
        }
    }
}

impl<T0: Queryable, T1: Queryable, T2: Queryable, T3: Queryable, T4: Queryable, T5: Queryable, T6: Queryable, T7: Queryable> Queryable for (T0, T1, T2, T3, T4, T5, T6, T7) {
    open spec fn spec_decode(input: Option<Seq<u8>>) -> Result<(T0::V, T1::V, T2::V, T3::V, T4::V, T5::V, T6::V, T7::V), DecodeError> {
        match input {
            None => Err(DecodeError::MissingRequiredElement),
            Some(s) => match spec_count_header(s) {
                Err(e) => Err(e),
                Ok(count) => if count != 8 {
                    Err(DecodeError::ObjectSizeMismatch)
                } else {
                    match spec_tuple_like_element(s, 4) {
            Err(e) => Err(e),
            Ok((sp0, off1)) => match T0::spec_decode(sp0) {
                Err(e) => Err(e),
                Ok(v0) => match spec_tuple_like_element(s, off1) {
            Err(e) => Err(e),
            Ok((sp1, off2)) => match T1::spec_decode(sp1) {
                Err(e) => Err(e),
                Ok(v1) => match spec_tuple_like_element(s, off2) {
            Err(e) => Err(e),
            Ok((sp2, off3)) => match T2::spec_decode(sp2) {
                Err(e) => Err(e),
                Ok(v2) => match spec_tuple_like_element(s, off3) {
            Err(e) => Err(e),
            Ok((sp3, off4)) => match T3::spec_decode(sp3) {
                Err(e) => Err(e),
                Ok(v3) => match spec_tuple_like_element(s, off4) {
            Err(e) => Err(e),
            Ok((sp4, off5)) => match T4::spec_decode(sp4) {
                Err(e) => Err(e),
                Ok(v4) => match spec_tuple_like_element(s, off5) {
            Err(e) => Err(e),
            Ok((sp5, off6)) => match T5::spec_decode(sp5) {
                Err(e) => Err(e),
                Ok(v5) => match spec_tuple_like_element(s, off6) {
            Err(e) => Err(e),
            Ok((sp6, off7)) => match T6::spec_decode(sp6) {
                Err(e) => Err(e),
                Ok(v6) => match spec_tuple_like_element(s, off7) {
            Err(e) => Err(e),
            Ok((sp7, off8)) => match T7::spec_decode(sp7) {
                Err(e) => Err(e),
                Ok(v7) => Ok((v0, v1, v2, v3, v4, v5, v6, v7)),
            },
        },
            },
        },
            },
        },
            },
        },
            },
        },
            },
        },
            },
        },
            },
        }
                },
            },
        }
    }

    open spec fn spec_check(descs: Seq<Descriptor>, pos: TypePos) -> Result<(), MismatchV> {
        if pos.0 as int >= descs.len() {
            Err(MismatchV::InvalidDescriptor)
        } else {
            match descs[pos.0 as int] {
                Descriptor::Tuple(d) => if d.element_types@.len() != 8 {
                    Err(
                        MismatchV::FieldNumber {
                            expected: 8,
                            unexpected: d.element_types@.len() as int,
                        },
                    )
                } else {
                    match T0::spec_check(descs, d.element_types@[0]) {
                    Err(m) => Err(m),
                    Ok(..) => match T1::spec_check(descs, d.element_types@[1]) {
                    Err(m) => Err(m),
                    Ok(..) => match T2::spec_check(descs, d.element_types@[2]) {
                    Err(m) => Err(m),
                    Ok(..) => match T3::spec_check(descs, d.element_types@[3]) {
                    Err(m) => Err(m),
                    Ok(..) => match T4::spec_check(descs, d.element_types@[4]) {
                    Err(m) => Err(m),
                    Ok(..) => match T5::spec_check(descs, d.element_types@[5]) {
                    Err(m) => Err(m),
                    Ok(..) => match T6::spec_check(descs, d.element_types@[6]) {
                    Err(m) => Err(m),
                    Ok(..) => match T7::spec_check(descs, d.element_types@[7]) {
                    Err(m) => Err(m),
                    Ok(..) => Ok(()),
                },
                },
                },
                },
                },
                },
                },
                }
                },
                _ => Err(
                    MismatchV::WrongType {
                        unexpected: descs[pos.0 as int].spec_kind_name(),
                        expected: "tuple"@,
                    },
                ),
            }
        }
    }

    fn decode(input: Input<'_>) -> (r: Result<(T0, T1, T2, T3, T4, T5, T6, T7), DecodeError>) {
        let s = input.bytes()?;
        let count = crate::decode_composite::read_count_header(s)?;
        if count != 8 {
            return Err(DecodeError::ObjectSizeMismatch);
        }
        let (e0, p1) = crate::decode_composite::read_tuple_like_element(s, 4)?;
        let v0 = T0::decode(e0)?;
        let (e1, p2) = crate::decode_composite::read_tuple_like_element(s, p1)?;
        let v1 = T1::decode(e1)?;
        let (e2, p3) = crate::decode_composite::read_tuple_like_element(s, p2)?;
        let v2 = T2::decode(e2)?;
        let (e3, p4) = crate::decode_composite::read_tuple_like_element(s, p3)?;
        let v3 = T3::decode(e3)?;
        let (e4, p5) = crate::decode_composite::read_tuple_like_element(s, p4)?;
        let v4 = T4::decode(e4)?;
        let (e5, p6) = crate::decode_composite::read_tuple_like_element(s, p5)?;
        let v5 = T5::decode(e5)?;
        let (e6, p7) = crate::decode_composite::read_tuple_like_element(s, p6)?;
        let v6 = T6::decode(e6)?;
        let (e7, p8) = crate::decode_composite::read_tuple_like_element(s, p7)?;
        let v7 = T7::decode(e7)?;
        Ok((v0, v1, v2, v3, v4, v5, v6, v7))
    }

    fn check_descriptor(ctx: &DescriptorContext<'_>, pos: TypePos) -> (r: Result<
        (),
        DescriptorMismatch,
    >) {
        let desc = ctx.get(pos)?;
        match desc {
            Descriptor::Tuple(d) => {
                if d.element_types.len() != 8 {
                    return Err(ctx.field_number(8, d.element_types.len()));
                }
                T0::check_descriptor(ctx, d.element_types[0])?;
                T1::check_descriptor(ctx, d.element_types[1])?;
                T2::check_descriptor(ctx, d.element_types[2])?;
                T3::check_descriptor(ctx, d.element_types[3])?;
                T4::check_descriptor(ctx, d.element_types[4])?;
                T5::check_descriptor(ctx, d.element_types[5])?;
                T6::check_descriptor(ctx, d.element_types[6])?;
                T7::check_descriptor(ctx, d.element_types[7])?;
                Ok(())
            },
            _ => Err(ctx.wrong_type(desc, "tuple")),
        }
    }
}

impl<T0: Queryable, T1: Queryable, T2: Queryable, T3: Queryable, T4: Queryable, T5: Queryable, T6: Queryable, T7: Queryable, T8: Queryable> Queryable for (T0, T1, T2, T3, T4, T5, T6, T7, T8) {
    open spec fn spec_decode(input: Option<Seq<u8>>) -> Result<(T0::V, T1::V, T2::V, T3::V, T4::V, T5::V, T6::V, T7::V, T8::V), DecodeError> {
        match input {
            None => Err(DecodeError::MissingRequiredElement),
            Some(s) => match spec_count_header(s) {
                Err(e) => Err(e),
                Ok(count) => if count != 9 {
                    Err(DecodeError::ObjectSizeMismatch)
                } else {
                    match spec_tuple_like_element(s, 4) {
            Err(e) => Err(e),
            Ok((sp0, off1)) => match T0::spec_decode(sp0) {
                Err(e) => Err(e),
                Ok(v0) => match spec_tuple_like_element(s, off1) {
            Err(e) => Err(e),
            Ok((sp1, off2)) => match T1::spec_decode(sp1) {
                Err(e) => Err(e),
                Ok(v1) => match spec_tuple_like_element(s, off2) {
            Err(e) => Err(e),
            Ok((sp2, off3)) => match T2::spec_decode(sp2) {
                Err(e) => Err(e),
                Ok(v2) => match spec_tuple_like_element(s, off3) {
            Err(e) => Err(e),
            Ok((sp3, off4)) => match T3::spec_decode(sp3) {
                Err(e) => Err(e),
                Ok(v3) => match spec_tuple_like_element(s, off4) {
            Err(e) => Err(e),
            Ok((sp4, off5)) => match T4::spec_decode(sp4) {
                Err(e) => Err(e),
                Ok(v4) => match spec_tuple_like_element(s, off5) {
            Err(e) => Err(e),
            Ok((sp5, off6)) => match T5::spec_decode(sp5) {
                Err(e) => Err(e),
                Ok(v5) => match spec_tuple_like_element(s, off6) {
            Err(e) => Err(e),
            Ok((sp6, off7)) => match T6::spec_decode(sp6) {
                Err(e) => Err(e),
                Ok(v6) => match spec_tuple_like_element(s, off7) {
            Err(e) => Err(e),
            Ok((sp7, off8)) => match T7::spec_decode(sp7) {
                Err(e) => Err(e),
                Ok(v7) => match spec_tuple_like_element(s, off8) {
            Err(e) => Err(e),
            Ok((sp8, off9)) => match T8::spec_decode(sp8) {
                Err(e) => Err(e),
                Ok(v8) => Ok((v0, v1, v2, v3, v4, v5, v6, v7, v8)),
            },
        },
            },
        },
            },
        },
            },
        },
            },
        },
            },
        },
            },
        },
            },
        },
            },
        }
                },
            },
        }
    }

    open spec fn spec_check(descs: Seq<Descriptor>, pos: TypePos) -> Result<(), MismatchV> {
        if pos.0 as int >= descs.len() {
            Err(MismatchV::InvalidDescriptor)
        } else {
            match descs[pos.0 as int] {
                Descriptor::Tuple(d) => if d.element_types@.len() != 9 {
                    Err(
                        MismatchV::FieldNumber {
                            expected: 9,
                            unexpected: d.element_types@.len() as int,
                        },
                    )
                } else {
                    match T0::spec_check(descs, d.element_types@[0]) {
                    Err(m) => Err(m),
                    Ok(..) => match T1::spec_check(descs, d.element_types@[1]) {
                    Err(m) => Err(m),
                    Ok(..) => match T2::spec_check(descs, d.element_types@[2]) {
                    Err(m) => Err(m),
                    Ok(..) => match T3::spec_check(descs, d.element_types@[3]) {
                    Err(m) => Err(m),
                    Ok(..) => match T4::spec_check(descs, d.element_types@[4]) {
                    Err(m) => Err(m),
                    Ok(..) => match T5::spec_check(descs, d.element_types@[5]) {
                    Err(m) => Err(m),
                    Ok(..) => match T6::spec_check(descs, d.element_types@[6]) {
                    Err(m) => Err(m),
                    Ok(..) => match T7::spec_check(descs, d.element_types@[7]) {
                    Err(m) => Err(m),
                    Ok(..) => match T8::spec_check(descs, d.element_types@[8]) {
                    Err(m) => Err(m),
                    Ok(..) => Ok(()),
                },
                },
                },
                },
                },
                },
                },
                },
                }
                },
                _ => Err(
                    MismatchV::WrongType {
                        unexpected: descs[pos.0 as int].spec_kind_name(),
                        expected: "tuple"@,
                    },
                ),
            }
        }
    }

    fn decode(input: Input<'_>) -> (r: Result<(T0, T1, T2, T3, T4, T5, T6, T7, T8), DecodeError>) {
        let s = input.bytes()?;
        let count = crate::decode_composite::read_count_header(s)?;
        if count != 9 {
            return Err(DecodeError::ObjectSizeMismatch);
        }
        let (e0, p1) = crate::decode_composite::read_tuple_like_element(s, 4)?;
        let v0 = T0::decode(e0)?;
        let (e1, p2) = crate::decode_composite::read_tuple_like_element(s, p1)?;
        let v1 = T1::decode(e1)?;
        let (e2, p3) = crate::decode_composite::read_tuple_like_element(s, p2)?;
        let v2 = T2::decode(e2)?;
        let (e3, p4) = crate::decode_composite::read_tuple_like_element(s, p3)?;
        let v3 = T3::decode(e3)?;
        let (e4, p5) = crate::decode_composite::read_tuple_like_element(s, p4)?;
        let v4 = T4::decode(e4)?;
        let (e5, p6) = crate::decode_composite::read_tuple_like_element(s, p5)?;
        let v5 = T5::decode(e5)?;
        let (e6, p7) = crate::decode_composite::read_tuple_like_element(s, p6)?;
        let v6 = T6::decode(e6)?;
        let (e7, p8) = crate::decode_composite::read_tuple_like_element(s, p7)?;
        let v7 = T7::decode(e7)?;
        let (e8, p9) = crate::decode_composite::read_tuple_like_element(s, p8)?;
        let v8 = T8::decode(e8)?;
        Ok((v0, v1, v2, v3, v4, v5, v6, v7, v8))
    }

    fn check_descriptor(ctx: &DescriptorContext<'_>, pos: TypePos) -> (r: Result<
        (),
        DescriptorMismatch,
    >) {
        let desc = ctx.get(pos)?;
        match desc {
            Descriptor::Tuple(d) => {
                if d.element_types.len() != 9 {
                    return Err(ctx.field_number(9, d.element_types.len()));
                }
                T0::check_descriptor(ctx, d.element_types[0])?;
                T1::check_descriptor(ctx, d.element_types[1])?;
                T2::check_descriptor(ctx, d.element_types[2])?;
                T3::check_descriptor(ctx, d.element_types[3])?;
                T4::check_descriptor(ctx, d.element_types[4])?;
                T5::check_descriptor(ctx, d.element_types[5])?;
                T6::check_descriptor(ctx, d.element_types[6])?;
                T7::check_descriptor(ctx, d.element_types[7])?;
                T8::check_descriptor(ctx, d.element_types[8])?;
                Ok(())
            },
            _ => Err(ctx.wrong_type(desc, "tuple")),
        }
    }
}

impl<T0: Queryable, T1: Queryable, T2: Queryable, T3: Queryable, T4: Queryable, T5: Queryable, T6: Queryable, T7: Queryable, T8: Queryable, T9: Queryable> Queryable for (T0, T1, T2, T3, T4, T5, T6, T7, T8, T9) {
    open spec fn spec_decode(input: Option<Seq<u8>>) -> Result<(T0::V, T1::V, T2::V, T3::V, T4::V, T5::V, T6::V, T7::V, T8::V, T9::V), DecodeError> {
        match input {
            None => Err(DecodeError::MissingRequiredElement),
            Some(s) => match spec_count_header(s) {
                Err(e) => Err(e),
                Ok(count) => if count != 10 {
                    Err(DecodeError::ObjectSizeMismatch)
                } else {
                    match spec_tuple_like_element(s, 4) {
            Err(e) => Err(e),
            Ok((sp0, off1)) => match T0::spec_decode(sp0) {
                Err(e) => Err(e),
                Ok(v0) => match spec_tuple_like_element(s, off1) {
            Err(e) => Err(e),
            Ok((sp1, off2)) => match T1::spec_decode(sp1) {
                Err(e) => Err(e),
                Ok(v1) => match spec_tuple_like_element(s, off2) {
            Err(e) => Err(e),
            Ok((sp2, off3)) => match T2::spec_decode(sp2) {
                Err(e) => Err(e),
                Ok(v2) => match spec_tuple_like_element(s, off3) {
            Err(e) => Err(e),
            Ok((sp3, off4)) => match T3::spec_decode(sp3) {
                Err(e) => Err(e),
                Ok(v3) => match spec_tuple_like_element(s, off4) {
            Err(e) => Err(e),
            Ok((sp4, off5)) => match T4::spec_decode(sp4) {
                Err(e) => Err(e),
                Ok(v4) => match spec_tuple_like_element(s, off5) {
            Err(e) => Err(e),
            Ok((sp5, off6)) => match T5::spec_decode(sp5) {
                Err(e) => Err(e),
                Ok(v5) => match spec_tuple_like_element(s, off6) {
            Err(e) => Err(e),
            Ok((sp6, off7)) => match T6::spec_decode(sp6) {
                Err(e) => Err(e),
                Ok(v6) => match spec_tuple_like_element(s, off7) {
            Err(e) => Err(e),
            Ok((sp7, off8)) => match T7::spec_decode(sp7) {
                Err(e) => Err(e),
                Ok(v7) => match spec_tuple_like_element(s, off8) {
            Err(e) => Err(e),
            Ok((sp8, off9)) => match T8::spec_decode(sp8) {
                Err(e) => Err(e),
                Ok(v8) => match spec_tuple_like_element(s, off9) {
            Err(e) => Err(e),
            Ok((sp9, off10)) => match T9::spec_decode(sp9) {
                Err(e) => Err(e),
                Ok(v9) => Ok((v0, v1, v2, v3, v4, v5, v6, v7, v8, v9)),
            },
        },
            },
        },
            },
        },
            },
        },
            },
        },
            },
        },
            },
        },
            },
        },
            },
        },
            },
        }
                },
            },
        }
    }

    open spec fn spec_check(descs: Seq<Descriptor>, pos: TypePos) -> Result<(), MismatchV> {
        if pos.0 as int >= descs.len() {
            Err(MismatchV::InvalidDescriptor)
        } else {
            match descs[pos.0 as int] {
                Descriptor::Tuple(d) => if d.element_types@.len() != 10 {
                    Err(
                        MismatchV::FieldNumber {
                            expected: 10,
                            unexpected: d.element_types@.len() as int,
                        },
                    )
                } else {
                    match T0::spec_check(descs, d.element_types@[0]) {
                    Err(m) => Err(m),
                    Ok(..) => match T1::spec_check(descs, d.element_types@[1]) {
                    Err(m) => Err(m),
                    Ok(..) => match T2::spec_check(descs, d.element_types@[2]) {
                    Err(m) => Err(m),
                    Ok(..) => match T3::spec_check(descs, d.element_types@[3]) {
                    Err(m) => Err(m),
                    Ok(..) => match T4::spec_check(descs, d.element_types@[4]) {
                    Err(m) => Err(m),
                    Ok(..) => match T5::spec_check(descs, d.element_types@[5]) {
                    Err(m) => Err(m),
                    Ok(..) => match T6::spec_check(descs, d.element_types@[6]) {
                    Err(m) => Err(m),
                    Ok(..) => match T7::spec_check(descs, d.element_types@[7]) {
                    Err(m) => Err(m),
                    Ok(..) => match T8::spec_check(descs, d.element_types@[8]) {
                    Err(m) => Err(m),
                    Ok(..) => match T9::spec_check(descs, d.element_types@[9]) {
                    Err(m) => Err(m),
                    Ok(..) => Ok(()),
                },
                },
                },
                },
                },
                },
                },
                },
                },
                }
                },
                _ => Err(
                    MismatchV::WrongType {
                        unexpected: descs[pos.0 as int].spec_kind_name(),
                        expected: "tuple"@,
                    },
                ),
            }
        }
    }

    fn decode(input: Input<'_>) -> (r: Result<(T0, T1, T2, T3, T4, T5, T6, T7, T8, T9), DecodeError>) {
        let s = input.bytes()?;
        let count = crate::decode_composite::read_count_header(s)?;
        if count != 10 {
            return Err(DecodeError::ObjectSizeMismatch);
        }
        let (e0, p1) = crate::decode_composite::read_tuple_like_element(s, 4)?;
        let v0 = T0::decode(e0)?;
        let (e1, p2) = crate::decode_composite::read_tuple_like_element(s, p1)?;
        let v1 = T1::decode(e1)?;
        let (e2, p3) = crate::decode_composite::read_tuple_like_element(s, p2)?;
        let v2 = T2::decode(e2)?;
        let (e3, p4) = crate::decode_composite::read_tuple_like_element(s, p3)?;
        let v3 = T3::decode(e3)?;
        let (e4, p5) = crate::decode_composite::read_tuple_like_element(s, p4)?;
        let v4 = T4::decode(e4)?;
        let (e5, p6) = crate::decode_composite::read_tuple_like_element(s, p5)?;
        let v5 = T5::decode(e5)?;
        let (e6, p7) = crate::decode_composite::read_tuple_like_element(s, p6)?;
        let v6 = T6::decode(e6)?;
        let (e7, p8) = crate::decode_composite::read_tuple_like_element(s, p7)?;
        let v7 = T7::decode(e7)?;
        let (e8, p9) = crate::decode_composite::read_tuple_like_element(s, p8)?;
        let v8 = T8::decode(e8)?;
        let (e9, p10) = crate::decode_composite::read_tuple_like_element(s, p9)?;
        let v9 = T9::decode(e9)?;
        Ok((v0, v1, v2, v3, v4, v5, v6, v7, v8, v9))
    }

    fn check_descriptor(ctx: &DescriptorContext<'_>, pos: TypePos) -> (r: Result<
        (),
        DescriptorMismatch,
    >) {
        let desc = ctx.get(pos)?;
        match desc {
            Descriptor::Tuple(d) => {
                if d.element_types.len() != 10 {
                    return Err(ctx.field_number(10, d.element_types.len()));
                }
                T0::check_descriptor(ctx, d.element_types[0])?;
                T1::check_descriptor(ctx, d.element_types[1])?;
                T2::check_descriptor(ctx, d.element_types[2])?;
                T3::check_descriptor(ctx, d.element_types[3])?;
                T4::check_descriptor(ctx, d.element_types[4])?;
                T5::check_descriptor(ctx, d.element_types[5])?;
                T6::check_descriptor(ctx, d.element_types[6])?;
                T7::check_descriptor(ctx, d.element_types[7])?;
                T8::check_descriptor(ctx, d.element_types[8])?;
                T9::check_descriptor(ctx, d.element_types[9])?;
                Ok(())
            },
            _ => Err(ctx.wrong_type(desc, "tuple")),
        }
    }
}

impl<T0: Queryable, T1: Queryable, T2: Queryable, T3: Queryable, T4: Queryable, T5: Queryable, T6: Queryable, T7: Queryable, T8: Queryable, T9: Queryable, T10: Queryable> Queryable for (T0, T1, T2, T3, T4, T5, T6, T7, T8, T9, T10) {
    open spec fn spec_decode(input: Option<Seq<u8>>) -> Result<(T0::V, T1::V, T2::V, T3::V, T4::V, T5::V, T6::V, T7::V, T8::V, T9::V, T10::V), DecodeError> {
        match input {
            None => Err(DecodeError::MissingRequiredElement),
            Some(s) => match spec_count_header(s) {
                Err(e) => Err(e),
                Ok(count) => if count != 11 {
                    Err(DecodeError::ObjectSizeMismatch)
                } else {
                    match spec_tuple_like_element(s, 4) {
            Err(e) => Err(e),
            Ok((sp0, off1)) => match T0::spec_decode(sp0) {
                Err(e) => Err(e),
                Ok(v0) => match spec_tuple_like_element(s, off1) {
            Err(e) => Err(e),
            Ok((sp1, off2)) => match T1::spec_decode(sp1) {
                Err(e) => Err(e),
                Ok(v1) => match spec_tuple_like_element(s, off2) {
            Err(e) => Err(e),
            Ok((sp2, off3)) => match T2::spec_decode(sp2) {
                Err(e) => Err(e),
                Ok(v2) => match spec_tuple_like_element(s, off3) {
            Err(e) => Err(e),
            Ok((sp3, off4)) => match T3::spec_decode(sp3) {
                Err(e) => Err(e),
                Ok(v3) => match spec_tuple_like_element(s, off4) {
            Err(e) => Err(e),
            Ok((sp4, off5)) => match T4::spec_decode(sp4) {
                Err(e) => Err(e),
                Ok(v4) => match spec_tuple_like_element(s, off5) {
            Err(e) => Err(e),
            Ok((sp5, off6)) => match T5::spec_decode(sp5) {
                Err(e) => Err(e),
                Ok(v5) => match spec_tuple_like_element(s, off6) {
            Err(e) => Err(e),
            Ok((sp6, off7)) => match T6::spec_decode(sp6) {
                Err(e) => Err(e),
                Ok(v6) => match spec_tuple_like_element(s, off7) {
            Err(e) => Err(e),
            Ok((sp7, off8)) => match T7::spec_decode(sp7) {
                Err(e) => Err(e),
                Ok(v7) => match spec_tuple_like_element(s, off8) {
            Err(e) => Err(e),
            Ok((sp8, off9)) => match T8::spec_decode(sp8) {
                Err(e) => Err(e),
                Ok(v8) => match spec_tuple_like_element(s, off9) {
            Err(e) => Err(e),
            Ok((sp9, off10)) => match T9::spec_decode(sp9) {
                Err(e) => Err(e),
                Ok(v9) => match spec_tuple_like_element(s, off10) {
            Err(e) => Err(e),
            Ok((sp10, off11)) => match T10::spec_decode(sp10) {
                Err(e) => Err(e),
                Ok(v10) => Ok((v0, v1, v2, v3, v4, v5, v6, v7, v8, v9, v10)),
            },
        },
            },
        },
            },
        },
            },
        },
            },
        },
            },
        },
            },
        },
            },
        },
            },
        },
            },
        },
            },
        }
                },
            },
        }
    }

    open spec fn spec_check(descs: Seq<Descriptor>, pos: TypePos) -> Result<(), MismatchV> {
        if pos.0 as int >= descs.len() {
            Err(MismatchV::InvalidDescriptor)
        } else {
            match descs[pos.0 as int] {
                Descriptor::Tuple(d) => if d.element_types@.len() != 11 {
                    Err(
                        MismatchV::FieldNumber {
                            expected: 11,
                            unexpected: d.element_types@.len() as int,
                        },
                    )
                } else {
                    match T0::spec_check(descs, d.element_types@[0]) {
                    Err(m) => Err(m),
                    Ok(..) => match T1::spec_check(descs, d.element_types@[1]) {
                    Err(m) => Err(m),
                    Ok(..) => match T2::spec_check(descs, d.element_types@[2]) {
                    Err(m) => Err(m),
                    Ok(..) => match T3::spec_check(descs, d.element_types@[3]) {
                    Err(m) => Err(m),
                    Ok(..) => match T4::spec_check(descs, d.element_types@[4]) {
                    Err(m) => Err(m),
                    Ok(..) => match T5::spec_check(descs, d.element_types@[5]) {
                    Err(m) => Err(m),
                    Ok(..) => match T6::spec_check(descs, d.element_types@[6]) {
                    Err(m) => Err(m),
                    Ok(..) => match T7::spec_check(descs, d.element_types@[7]) {
                    Err(m) => Err(m),
                    Ok(..) => match T8::spec_check(descs, d.element_types@[8]) {
                    Err(m) => Err(m),
                    Ok(..) => match T9::spec_check(descs, d.element_types@[9]) {
                    Err(m) => Err(m),
                    Ok(..) => match T10::spec_check(descs, d.element_types@[10]) {
                    Err(m) => Err(m),
                    Ok(..) => Ok(()),
                },
                },
                },
                },
                },
                },
                },
                },
                },
                },
                }
                },
                _ => Err(
                    MismatchV::WrongType {
                        unexpected: descs[pos.0 as int].spec_kind_name(),
                        expected: "tuple"@,
                    },
                ),
            }
        }
    }

    fn decode(input: Input<'_>) -> (r: Result<(T0, T1, T2, T3, T4, T5, T6, T7, T8, T9, T10), DecodeError>) {
        let s = input.bytes()?;
        let count = crate::decode_composite::read_count_header(s)?;
        if count != 11 {
            return Err(DecodeError::ObjectSizeMismatch);
        }
        let (e0, p1) = crate::decode_composite::read_tuple_like_element(s, 4)?;
        let v0 = T0::decode(e0)?;
        let (e1, p2) = crate::decode_composite::read_tuple_like_element(s, p1)?;
        let v1 = T1::decode(e1)?;
        let (e2, p3) = crate::decode_composite::read_tuple_like_element(s, p2)?;
        let v2 = T2::decode(e2)?;
        let (e3, p4) = crate::decode_composite::read_tuple_like_element(s, p3)?;
        let v3 = T3::decode(e3)?;
        let (e4, p5) = crate::decode_composite::read_tuple_like_element(s, p4)?;
        let v4 = T4::decode(e4)?;
        let (e5, p6) = crate::decode_composite::read_tuple_like_element(s, p5)?;
        let v5 = T5::decode(e5)?;
        let (e6, p7) = crate::decode_composite::read_tuple_like_element(s, p6)?;
        let v6 = T6::decode(e6)?;
        let (e7, p8) = crate::decode_composite::read_tuple_like_element(s, p7)?;
        let v7 = T7::decode(e7)?;
        let (e8, p9) = crate::decode_composite::read_tuple_like_element(s, p8)?;
        let v8 = T8::decode(e8)?;
        let (e9, p10) = crate::decode_composite::read_tuple_like_element(s, p9)?;
        let v9 = T9::decode(e9)?;
        let (e10, p11) = crate::decode_composite::read_tuple_like_element(s, p10)?;
        let v10 = T10::decode(e10)?;
        Ok((v0, v1, v2, v3, v4, v5, v6, v7, v8, v9, v10))
    }

    fn check_descriptor(ctx: &DescriptorContext<'_>, pos: TypePos) -> (r: Result<
        (),
        DescriptorMismatch,
    >) {
        let desc = ctx.get(pos)?;
        match desc {
            Descriptor::Tuple(d) => {
                if d.element_types.len() != 11 {
                    return Err(ctx.field_number(11, d.element_types.len()));
                }
                T0::check_descriptor(ctx, d.element_types[0])?;
                T1::check_descriptor(ctx, d.element_types[1])?;
                T2::check_descriptor(ctx, d.element_types[2])?;
                T3::check_descriptor(ctx, d.element_types[3])?;
                T4::check_descriptor(ctx, d.element_types[4])?;
                T5::check_descriptor(ctx, d.element_types[5])?;
                T6::check_descriptor(ctx, d.element_types[6])?;
                T7::check_descriptor(ctx, d.element_types[7])?;
                T8::check_descriptor(ctx, d.element_types[8])?;
                T9::check_descriptor(ctx, d.element_types[9])?;
                T10::check_descriptor(ctx, d.element_types[10])?;
                Ok(())
            },
            _ => Err(ctx.wrong_type(desc, "tuple")),
        }
    }
}

impl<T0: Queryable, T1: Queryable, T2: Queryable, T3: Queryable, T4: Queryable, T5: Queryable, T6: Queryable, T7: Queryable, T8: Queryable, T9: Queryable, T10: Queryable, T11: Queryable> Queryable for (T0, T1, T2, T3, T4, T5, T6, T7, T8, T9, T10, T11) {
    open spec fn spec_decode(input: Option<Seq<u8>>) -> Result<(T0::V, T1::V, T2::V, T3::V, T4::V, T5::V, T6::V, T7::V, T8::V, T9::V, T10::V, T11::V), DecodeError> {
        match input {
            None => Err(DecodeError::MissingRequiredElement),
            Some(s) => match spec_count_header(s) {
                Err(e) => Err(e),
                Ok(count) => if count != 12 {
                    Err(DecodeError::ObjectSizeMismatch)
                } else {
                    match spec_tuple_like_element(s, 4) {
            Err(e) => Err(e),
            Ok((sp0, off1)) => match T0::spec_decode(sp0) {
                Err(e) => Err(e),
                Ok(v0) => match spec_tuple_like_element(s, off1) {
            Err(e) => Err(e),
            Ok((sp1, off2)) => match T1::spec_decode(sp1) {
                Err(e) => Err(e),
                Ok(v1) => match spec_tuple_like_element(s, off2) {
            Err(e) => Err(e),
            Ok((sp2, off3)) => match T2::spec_decode(sp2) {
                Err(e) => Err(e),
                Ok(v2) => match spec_tuple_like_element(s, off3) {
            Err(e) => Err(e),
            Ok((sp3, off4)) => match T3::spec_decode(sp3) {
                Err(e) => Err(e),
                Ok(v3) => match spec_tuple_like_element(s, off4) {
            Err(e) => Err(e),
            Ok((sp4, off5)) => match T4::spec_decode(sp4) {
                Err(e) => Err(e),
                Ok(v4) => match spec_tuple_like_element(s, off5) {
            Err(e) => Err(e),
            Ok((sp5, off6)) => match T5::spec_decode(sp5) {
                Err(e) => Err(e),
                Ok(v5) => match spec_tuple_like_element(s, off6) {
            Err(e) => Err(e),
            Ok((sp6, off7)) => match T6::spec_decode(sp6) {
                Err(e) => Err(e),
                Ok(v6) => match spec_tuple_like_element(s, off7) {
            Err(e) => Err(e),
            Ok((sp7, off8)) => match T7::spec_decode(sp7) {
                Err(e) => Err(e),
                Ok(v7) => match spec_tuple_like_element(s, off8) {
            Err(e) => Err(e),
            Ok((sp8, off9)) => match T8::spec_decode(sp8) {
                Err(e) => Err(e),
                Ok(v8) => match spec_tuple_like_element(s, off9) {
            Err(e) => Err(e),
            Ok((sp9, off10)) => match T9::spec_decode(sp9) {
                Err(e) => Err(e),
                Ok(v9) => match spec_tuple_like_element(s, off10) {
            Err(e) => Err(e),
            Ok((sp10, off11)) => match T10::spec_decode(sp10) {
                Err(e) => Err(e),
                Ok(v10) => match spec_tuple_like_element(s, off11) {
            Err(e) => Err(e),
            Ok((sp11, off12)) => match T11::spec_decode(sp11) {
                Err(e) => Err(e),
                Ok(v11) => Ok((v0, v1, v2, v3, v4, v5, v6, v7, v8, v9, v10, v11)),
            },
        },
            },
        },
            },
        },
            },
        },
            },
        },
            },
        },
            },
        },
            },
        },
            },
        },
            },
        },
            },
        },
            },
        }
                },
            },
        }
    }

    open spec fn spec_check(descs: Seq<Descriptor>, pos: TypePos) -> Result<(), MismatchV> {
        if pos.0 as int >= descs.len() {
            Err(MismatchV::InvalidDescriptor)
        } else {
            match descs[pos.0 as int] {
                Descriptor::Tuple(d) => if d.element_types@.len() != 12 {
                    Err(
                        MismatchV::FieldNumber {
                            expected: 12,
                            unexpected: d.element_types@.len() as int,
                        },
                    )
                } else {
                    match T0::spec_check(descs, d.element_types@[0]) {
                    Err(m) => Err(m),
                    Ok(..) => match T1::spec_check(descs, d.element_types@[1]) {
                    Err(m) => Err(m),
                    Ok(..) => match T2::spec_check(descs, d.element_types@[2]) {
                    Err(m) => Err(m),
                    Ok(..) => match T3::spec_check(descs, d.element_types@[3]) {
                    Err(m) => Err(m),
                    Ok(..) => match T4::spec_check(descs, d.element_types@[4]) {
                    Err(m) => Err(m),
                    Ok(..) => match T5::spec_check(descs, d.element_types@[5]) {
                    Err(m) => Err(m),
                    Ok(..) => match T6::spec_check(descs, d.element_types@[6]) {
                    Err(m) => Err(m),
                    Ok(..) => match T7::spec_check(descs, d.element_types@[7]) {
                    Err(m) => Err(m),
                    Ok(..) => match T8::spec_check(descs, d.element_types@[8]) {
                    Err(m) => Err(m),
                    Ok(..) => match T9::spec_check(descs, d.element_types@[9]) {
                    Err(m) => Err(m),
                    Ok(..) => match T10::spec_check(descs, d.element_types@[10]) {
                    Err(m) => Err(m),
                    Ok(..) => match T11::spec_check(descs, d.element_types@[11]) {
                    Err(m) => Err(m),
                    Ok(..) => Ok(()),
                },
                },
                },
                },
                },
                },
                },
                },
                },
                },
                },
                }
                },
                _ => Err(
                    MismatchV::WrongType {
                        unexpected: descs[pos.0 as int].spec_kind_name(),
                        expected: "tuple"@,
                    },
                ),
            }
        }
    }

    fn decode(input: Input<'_>) -> (r: Result<(T0, T1, T2, T3, T4, T5, T6, T7, T8, T9, T10, T11), DecodeError>) {
        let s = input.bytes()?;
        let count = crate::decode_composite::read_count_header(s)?;
        if count != 12 {
            return Err(DecodeError::ObjectSizeMismatch);
        }
        let (e0, p1) = crate::decode_composite::read_tuple_like_element(s, 4)?;
        let v0 = T0::decode(e0)?;
        let (e1, p2) = crate::decode_composite::read_tuple_like_element(s, p1)?;
        let v1 = T1::decode(e1)?;
        let (e2, p3) = crate::decode_composite::read_tuple_like_element(s, p2)?;
        let v2 = T2::decode(e2)?;
        let (e3, p4) = crate::decode_composite::read_tuple_like_element(s, p3)?;
        let v3 = T3::decode(e3)?;
        let (e4, p5) = crate::decode_composite::read_tuple_like_element(s, p4)?;
        let v4 = T4::decode(e4)?;
        let (e5, p6) = crate::decode_composite::read_tuple_like_element(s, p5)?;
        let v5 = T5::decode(e5)?;
        let (e6, p7) = crate::decode_composite::read_tuple_like_element(s, p6)?;
        let v6 = T6::decode(e6)?;
        let (e7, p8) = crate::decode_composite::read_tuple_like_element(s, p7)?;
        let v7 = T7::decode(e7)?;
        let (e8, p9) = crate::decode_composite::read_tuple_like_element(s, p8)?;
        let v8 = T8::decode(e8)?;
        let (e9, p10) = crate::decode_composite::read_tuple_like_element(s, p9)?;
        let v9 = T9::decode(e9)?;
        let (e10, p11) = crate::decode_composite::read_tuple_like_element(s, p10)?;
        let v10 = T10::decode(e10)?;
        let (e11, p12) = crate::decode_composite::read_tuple_like_element(s, p11)?;
        let v11 = T11::decode(e11)?;
        Ok((v0, v1, v2, v3, v4, v5, v6, v7, v8, v9, v10, v11))
    }

    fn check_descriptor(ctx: &DescriptorContext<'_>, pos: TypePos) -> (r: Result<
        (),
        DescriptorMismatch,
    >) {
        let desc = ctx.get(pos)?;
        match desc {
            Descriptor::Tuple(d) => {
                if d.element_types.len() != 12 {
                    return Err(ctx.field_number(12, d.element_types.len()));
                }
                T0::check_descriptor(ctx, d.element_types[0])?;
                T1::check_descriptor(ctx, d.element_types[1])?;
                T2::check_descriptor(ctx, d.element_types[2])?;
                T3::check_descriptor(ctx, d.element_types[3])?;
                T4::check_descriptor(ctx, d.element_types[4])?;
                T5::check_descriptor(ctx, d.element_types[5])?;
                T6::check_descriptor(ctx, d.element_types[6])?;
                T7::check_descriptor(ctx, d.element_types[7])?;
                T8::check_descriptor(ctx, d.element_types[8])?;
                T9::check_descriptor(ctx, d.element_types[9])?;
                T10::check_descriptor(ctx, d.element_types[10])?;
                T11::check_descriptor(ctx, d.element_types[11])?;
                Ok(())
            },
            _ => Err(ctx.wrong_type(desc, "tuple")),
        }
    }
}

// ---------------------------------------------------------------------------
// Generic codec wrappers over the compile-time-typed path.
// ---------------------------------------------------------------------------
/// A codec that decodes values of type `T` and checks descriptors for it.
pub trait Codec<T: DeepView> {
    /// What this codec decodes from an input span.
    spec fn spec_decode(&self, input: Option<Seq<u8>>) -> Result<T::V, DecodeError>;

    /// Whether the descriptor at `pos` matches this codec's shape.
    spec fn spec_check(&self, descs: Seq<Descriptor>, pos: TypePos) -> Result<(), MismatchV>;

    fn decode(&self, input: Input<'_>) -> (r: Result<T, DecodeError>)
        ensures
            match self.spec_decode(input@) {
                Ok(v) => r matches Ok(val) && val.deep_view() == v,
                Err(e) => r matches Err(e2) && e2 == e,
            },
    ;

    fn check_descriptor(&self, ctx: &DescriptorContext<'_>, pos: TypePos) -> (r: Result<
        (),
        DescriptorMismatch,
    >)
        ensures
            match self.spec_check(ctx@, pos) {
                Ok(..) => r is Ok,
                Err(m) => r matches Err(d) && d@ == m,
            },
    ;
}

/// The codec of any type that decodes itself.
#[derive(Debug, Default)]
pub struct DefaultCodec;

/// The codec of the scalar types and static tuples; it delegates to the
/// type's own decode.
#[derive(Debug, Default)]
pub struct ScalarCodec;

impl<T: Queryable> Codec<T> for DefaultCodec {
    open spec fn spec_decode(&self, input: Option<Seq<u8>>) -> Result<T::V, DecodeError> {
        T::spec_decode(input)
    }

    open spec fn spec_check(&self, descs: Seq<Descriptor>, pos: TypePos) -> Result<(), MismatchV> {
        T::spec_check(descs, pos)
    }

    fn decode(&self, input: Input<'_>) -> (r: Result<T, DecodeError>) {
        T::decode(input)
    }

    fn check_descriptor(&self, ctx: &DescriptorContext<'_>, pos: TypePos) -> (r: Result<
        (),
        DescriptorMismatch,
    >) {
        T::check_descriptor(ctx, pos)
    }
}

impl<T: Queryable> Codec<T> for ScalarCodec {
    open spec fn spec_decode(&self, input: Option<Seq<u8>>) -> Result<T::V, DecodeError> {
        T::spec_decode(input)
    }

    open spec fn spec_check(&self, descs: Seq<Descriptor>, pos: TypePos) -> Result<(), MismatchV> {
        T::spec_check(descs, pos)
    }

    fn decode(&self, input: Input<'_>) -> (r: Result<T, DecodeError>) {
        T::decode(input)
    }

    fn check_descriptor(&self, ctx: &DescriptorContext<'_>, pos: TypePos) -> (r: Result<
        (),
        DescriptorMismatch,
    >) {
        T::check_descriptor(ctx, pos)
    }
}

impl<'c, T: DeepView, C: Codec<T>> Codec<T> for &'c C {
    open spec fn spec_decode(&self, input: Option<Seq<u8>>) -> Result<T::V, DecodeError> {
        (**self).spec_decode(input)
    }

    open spec fn spec_check(&self, descs: Seq<Descriptor>, pos: TypePos) -> Result<(), MismatchV> {
        (**self).spec_check(descs, pos)
    }

    fn decode(&self, input: Input<'_>) -> (r: Result<T, DecodeError>) {
        (**self).decode(input)
    }

    fn check_descriptor(&self, ctx: &DescriptorContext<'_>, pos: TypePos) -> (r: Result<
        (),
        DescriptorMismatch,
    >) {
        (**self).check_descriptor(ctx, pos)
    }
}

/// Decodes one container's elements through the inner codec: array-like
/// framing, `n` elements from `off`.
pub open spec fn spec_collect_elements<T: DeepView, C: Codec<T>>(
    inner: &C,
    s: Seq<u8>,
    off: int,
    n: nat,
) -> Result<Seq<T::V>, DecodeError>
    decreases n,
{
    if n == 0 {
        Ok(Seq::empty())
    } else {
        match spec_array_element(s, off) {
            Err(e) => Err(e),
            Ok((span, next)) => match inner.spec_decode(Some(span)) {
                Err(e) => Err(e),
                Ok(v) => match spec_collect_elements(inner, s, next, (n - 1) as nat) {
                    Err(e) => Err(e),
                    Ok(rest) => Ok(seq![v] + rest),
                },
            },
        }
    }
}

/// A codec for a collection, built from the codec of its elements.
#[derive(Debug)]
pub struct FromIteratorCodec<C>(pub C);

impl<C> FromIteratorCodec<C> {
    pub fn new(inner: C) -> (r: FromIteratorCodec<C>)
        ensures
            r.0 == inner,
    {
        FromIteratorCodec(inner)
    }
}

impl<T: DeepView, C: Codec<T>> Codec<Vec<T>> for FromIteratorCodec<C> {
    open spec fn spec_decode(&self, input: Option<Seq<u8>>) -> Result<Seq<T::V>, DecodeError> {
        match input {
            None => Err(DecodeError::MissingRequiredElement),
            Some(s) => match spec_array_header(s) {
                Err(e) => Err(e),
                Ok((count, off)) => spec_collect_elements(&self.0, s, off, count as nat),
            },
        }
    }

    open spec fn spec_check(&self, descs: Seq<Descriptor>, pos: TypePos) -> Result<(), MismatchV> {
        if pos.0 as int >= descs.len() {
            Err(MismatchV::InvalidDescriptor)
        } else {
            match descs[pos.0 as int] {
                Descriptor::SetOf(d) => self.0.spec_check(descs, d.type_pos),
                Descriptor::Array(d) => self.0.spec_check(descs, d.type_pos),
                _ => Err(
                    MismatchV::WrongType {
                        unexpected: descs[pos.0 as int].spec_kind_name(),
                        expected: "array or set"@,
                    },
                ),
            }
        }
    }

    fn decode(&self, input: Input<'_>) -> (r: Result<Vec<T>, DecodeError>) {
        let s = input.bytes()?;
        let (count, header_len) = crate::decode_composite::read_array_header(s)?;
        let ghost off0 = header_len as int;
        let mut out: Vec<T> = Vec::new();
        let mut pos: usize = header_len;
        let mut i: u64 = 0;
        proof {
            assert(out.deep_view() =~= Seq::<T::V>::empty());
        }
        #[verifier::loop_isolation(false)]
        while i < count
            invariant
                i <= count,
                pos <= s@.len(),
                match spec_collect_elements(&self.0, s@, pos as int, (count - i) as nat) {
                    Ok(rest) => spec_collect_elements(&self.0, s@, off0, count as nat) == Ok::<
                        Seq<T::V>,
                        DecodeError,
                    >(out.deep_view() + rest),
                    Err(e) => spec_collect_elements(&self.0, s@, off0, count as nat) == Err::<
                        Seq<T::V>,
                        DecodeError,
                    >(e),
                },
            decreases count - i,
        {
            let (span, npos) = match crate::decode_composite::read_array_element(s, pos) {
                Ok(x) => x,
                Err(e) => {
                    return Err(e);
                },
            };
            let v = match self.0.decode(Input(Some(span))) {
                Ok(v) => v,
                Err(e) => {
                    return Err(e);
                },
            };
            let ghost prev = out.deep_view();
            out.push(v);
            proof {
                assert(out.deep_view() =~= prev.push(v.deep_view()));
                match spec_collect_elements(&self.0, s@, npos as int, (count - i - 1) as nat) {
                    Ok(rest) => {
                        assert(prev + (seq![v.deep_view()] + rest) =~= out.deep_view() + rest);
                    },
                    Err(e) => {},
                }
            }
            pos = npos;
            i = i + 1;
        }
        proof {
            assert(out.deep_view() + Seq::<T::V>::empty() =~= out.deep_view());
        }
        Ok(out)
    }

    fn check_descriptor(&self, ctx: &DescriptorContext<'_>, pos: TypePos) -> (r: Result<
        (),
        DescriptorMismatch,
    >) {
        let desc = ctx.get(pos)?;
        match desc {
            Descriptor::SetOf(d) => self.0.check_descriptor(ctx, d.type_pos),
            Descriptor::Array(d) => self.0.check_descriptor(ctx, d.type_pos),
            _ => Err(ctx.wrong_type(desc, "array or set")),
        }
    }
}

/// A codec over an inner codec: the same descriptor discipline, lifted to an
/// optional element or a collection of elements.
#[derive(Debug)]
pub struct CompositeCodec<C>(pub C);

impl<T: DeepView, C: Codec<T>> Codec<Option<T>> for CompositeCodec<C> {
    open spec fn spec_decode(&self, input: Option<Seq<u8>>) -> Result<Option<T::V>, DecodeError> {
        match input {
            None => Ok(None),
            Some(s) => match self.0.spec_decode(Some(s)) {
                Err(e) => Err(e),
                Ok(v) => Ok(Some(v)),
            },
        }
    }

    open spec fn spec_check(&self, descs: Seq<Descriptor>, pos: TypePos) -> Result<(), MismatchV> {
        self.0.spec_check(descs, pos)
    }

    fn decode(&self, input: Input<'_>) -> (r: Result<Option<T>, DecodeError>) {
        match input.0 {
            None => Ok(None),
            Some(b) => match self.0.decode(Input(Some(b))) {
                Ok(v) => Ok(Some(v)),
                Err(e) => Err(e),
            },
        }
    }

    fn check_descriptor(&self, ctx: &DescriptorContext<'_>, pos: TypePos) -> (r: Result<
        (),
        DescriptorMismatch,
    >) {
        self.0.check_descriptor(ctx, pos)
    }
}

impl<T: DeepView, C: Codec<T>> Codec<Vec<T>> for CompositeCodec<C> {
    open spec fn spec_decode(&self, input: Option<Seq<u8>>) -> Result<Seq<T::V>, DecodeError> {
        match input {
            None => Err(DecodeError::MissingRequiredElement),
            Some(s) => match spec_array_header(s) {
                Err(e) => Err(e),
                Ok((count, off)) => spec_collect_elements(&&self.0, s, off, count as nat),
            },
        }
    }

    open spec fn spec_check(&self, descs: Seq<Descriptor>, pos: TypePos) -> Result<(), MismatchV> {
        FromIteratorCodec(&self.0).spec_check(descs, pos)
    }

    fn decode(&self, input: Input<'_>) -> (r: Result<Vec<T>, DecodeError>) {
        let inner = FromIteratorCodec::new(&self.0);
        inner.decode(input)
    }

    fn check_descriptor(&self, ctx: &DescriptorContext<'_>, pos: TypePos) -> (r: Result<
        (),
        DescriptorMismatch,
    >) {
        let inner = FromIteratorCodec::new(&self.0);
        inner.check_descriptor(ctx, pos)
    }
}

} // verus!
