//! The dynamic codec tree: one codec variant per descriptor kind, compiled
//! from the descriptor catalog, decoding byte spans into values and encoding
//! values into an output buffer.
use vstd::prelude::*;
use vstd::utf8::encode_utf8;
use crate::decode_composite::{
    spec_array_element, spec_array_header, spec_count_header, spec_input_element,
    spec_tuple_like_element,
};
use crate::encode_composite::{spec_null_element, MAX_ELEMENT_LENGTH};
use crate::descriptors::{Descriptor, TypePos};
use crate::errors::{CodecError, DecodeError, EncodeError};
use crate::scalars::{
    spec_decode_bigint, spec_decode_bool, spec_decode_decimal, spec_decode_duration,
    spec_decode_float32, spec_decode_float64, spec_decode_i16, spec_decode_i32, spec_decode_i64,
    spec_decode_json, spec_decode_local_date, spec_decode_local_time, spec_decode_str,
    spec_decode_uuid, spec_encode_bigint, spec_encode_bool, spec_encode_decimal,
    spec_encode_duration, spec_encode_json,
};
use crate::value::{ShapeElementV, Value, ValueV};
use crate::value::{NamedTupleShape, ObjectShape};
use crate::serialization::{Input, Output};
use crate::wire::{
    spec_i16_be, spec_i32_be, spec_i64_be, spec_u128_be, spec_u32_be, spec_u64_be,
};

verus! {

/// One node of the codec tree. Scalar leaves carry no state; composite nodes
/// own their element codecs; the input-direction tuple variants frame
/// elements without the reserved word.
#[derive(Debug)]
pub enum Codec {
    Nothing,
    Uuid,
    Str,
    Bytes,
    Int16,
    Int32,
    Int64,
    Float32,
    Float64,
    BigInt,
    Decimal,
    Bool,
    Datetime,
    LocalDatetime,
    LocalDate,
    LocalTime,
    Duration,
    Json,
    /// A scalar alias, wrapping its base codec transparently.
    Scalar(Box<Codec>),
    SetOf(Box<Codec>),
    Array(Box<Codec>),
    Tuple(Vec<Codec>),
    InputTuple(Vec<Codec>),
    NamedTuple { shape: NamedTupleShape, codecs: Vec<Codec> },
    InputNamedTuple { shape: NamedTupleShape, codecs: Vec<Codec> },
    Object { shape: ObjectShape, codecs: Vec<Codec> },
    Enum(Vec<String>),
}

/// The mathematical form of a codec tree.
pub enum CodecV {
    Nothing,
    Uuid,
    Str,
    Bytes,
    Int16,
    Int32,
    Int64,
    Float32,
    Float64,
    BigInt,
    Decimal,
    Bool,
    Datetime,
    LocalDatetime,
    LocalDate,
    LocalTime,
    Duration,
    Json,
    Scalar(Box<CodecV>),
    SetOf(Box<CodecV>),
    Array(Box<CodecV>),
    Tuple(Seq<CodecV>),
    InputTuple(Seq<CodecV>),
    NamedTuple { shape: Seq<Seq<char>>, codecs: Seq<CodecV> },
    InputNamedTuple { shape: Seq<Seq<char>>, codecs: Seq<CodecV> },
    Object { shape: Seq<ShapeElementV>, codecs: Seq<CodecV> },
    Enum(Seq<Seq<char>>),
}

/// The mathematical form of a sequence of codecs.
pub open spec fn codecs_view(s: Seq<Codec>) -> Seq<CodecV>
    decreases s,
{
    if s.len() == 0 {
        Seq::empty()
    } else {
        seq![codec_view(s[0])] + codecs_view(s.drop_first())
    }
}

/// The mathematical form of one codec.
pub open spec fn codec_view(c: Codec) -> CodecV
    decreases c,
{
    match c {
        Codec::Nothing => CodecV::Nothing,
        Codec::Uuid => CodecV::Uuid,
        Codec::Str => CodecV::Str,
        Codec::Bytes => CodecV::Bytes,
        Codec::Int16 => CodecV::Int16,
        Codec::Int32 => CodecV::Int32,
        Codec::Int64 => CodecV::Int64,
        Codec::Float32 => CodecV::Float32,
        Codec::Float64 => CodecV::Float64,
        Codec::BigInt => CodecV::BigInt,
        Codec::Decimal => CodecV::Decimal,
        Codec::Bool => CodecV::Bool,
        Codec::Datetime => CodecV::Datetime,
        Codec::LocalDatetime => CodecV::LocalDatetime,
        Codec::LocalDate => CodecV::LocalDate,
        Codec::LocalTime => CodecV::LocalTime,
        Codec::Duration => CodecV::Duration,
        Codec::Json => CodecV::Json,
        Codec::Scalar(inner) => CodecV::Scalar(Box::new(codec_view(*inner))),
        Codec::SetOf(el) => CodecV::SetOf(Box::new(codec_view(*el))),
        Codec::Array(el) => CodecV::Array(Box::new(codec_view(*el))),
        Codec::Tuple(cs) => CodecV::Tuple(codecs_view(cs@)),
        Codec::InputTuple(cs) => CodecV::InputTuple(codecs_view(cs@)),
        Codec::NamedTuple { shape, codecs } => CodecV::NamedTuple {
            shape: shape@,
            codecs: codecs_view(codecs@),
        },
        Codec::InputNamedTuple { shape, codecs } => CodecV::InputNamedTuple {
            shape: shape@,
            codecs: codecs_view(codecs@),
        },
        Codec::Object { shape, codecs } => CodecV::Object {
            shape: shape@,
            codecs: codecs_view(codecs@),
        },
        Codec::Enum(members) => CodecV::Enum(Seq::new(members@.len(), |i: int| members@[i]@)),
    }
}

impl View for Codec {
    type V = CodecV;

    open spec fn view(&self) -> CodecV {
        codec_view(*self)
    }
}

/// `codecs_view` maps the view over the sequence, element by element.
pub proof fn lemma_codecs_view(s: Seq<Codec>)
    ensures
        codecs_view(s).len() == s.len(),
        forall|i: int| 0 <= i < s.len() ==> #[trigger] codecs_view(s)[i] == codec_view(s[i]),
    decreases s,
{
    if s.len() > 0 {
        lemma_codecs_view(s.drop_first());
    }
}

// ---------------------------------------------------------------------------
// The decode specification: what value a codec reads from a byte span.
// ---------------------------------------------------------------------------
/// Decodes `n` elements of array-like framing with element codec `c`,
/// starting at `off`.
pub open spec fn spec_decode_array_elements(
    c: CodecV,
    s: Seq<u8>,
    off: int,
    n: nat,
) -> Result<Seq<ValueV>, DecodeError>
    decreases c, n + 2int,
{
    if n == 0 {
        Ok(Seq::empty())
    } else {
        match spec_array_element(s, off) {
            Err(e) => Err(e),
            Ok((span, next)) => match spec_decode_value(c, Some(span)) {
                Err(e) => Err(e),
                Ok(v) => match spec_decode_array_elements(c, s, next, (n - 1) as nat) {
                    Err(e) => Err(e),
                    Ok(rest) => Ok(seq![v] + rest),
                },
            },
        }
    }
}

/// Decodes the elements of server-to-client tuple-like framing, one per
/// element codec, starting at `off`. An absent element decodes as `None`.
pub open spec fn spec_decode_tuple_fields(
    cs: Seq<CodecV>,
    s: Seq<u8>,
    off: int,
) -> Result<Seq<Option<ValueV>>, DecodeError>
    decreases cs, 0int,
{
    if cs.len() == 0 {
        Ok(Seq::empty())
    } else {
        match spec_tuple_like_element(s, off) {
            Err(e) => Err(e),
            Ok((span, next)) => match spec_decode_field(cs[0], span) {
                Err(e) => Err(e),
                Ok(f) => match spec_decode_tuple_fields(cs.drop_first(), s, next) {
                    Err(e) => Err(e),
                    Ok(rest) => Ok(seq![f] + rest),
                },
            },
        }
    }
}

/// Decodes the elements of client-to-server tuple-like framing.
pub open spec fn spec_decode_input_fields(
    cs: Seq<CodecV>,
    s: Seq<u8>,
    off: int,
) -> Result<Seq<Option<ValueV>>, DecodeError>
    decreases cs, 0int,
{
    if cs.len() == 0 {
        Ok(Seq::empty())
    } else {
        match spec_input_element(s, off) {
            Err(e) => Err(e),
            Ok((span, next)) => match spec_decode_field(cs[0], span) {
                Err(e) => Err(e),
                Ok(f) => match spec_decode_input_fields(cs.drop_first(), s, next) {
                    Err(e) => Err(e),
                    Ok(rest) => Ok(seq![f] + rest),
                },
            },
        }
    }
}

/// One framed field: an absent span is an absent field, a present span
/// decodes by the element codec.
pub open spec fn spec_decode_field(c: CodecV, span: Option<Seq<u8>>) -> Result<
    Option<ValueV>,
    DecodeError,
>
    decreases c, 2int,
{
    match span {
        None => Ok(None),
        Some(b) => match spec_decode_value(c, Some(b)) {
            Err(e) => Err(e),
            Ok(v) => Ok(Some(v)),
        },
    }
}

/// Fields of a tuple or named tuple must all be present.
pub open spec fn spec_require_all(fields: Seq<Option<ValueV>>) -> Result<Seq<ValueV>, DecodeError> {
    if forall|i: int| 0 <= i < fields.len() ==> fields[i] is Some {
        Ok(Seq::new(fields.len(), |i: int| fields[i]->Some_0))
    } else {
        Err(DecodeError::MissingRequiredElement)
    }
}

/// What value codec `c` decodes from `input`. The Nothing codec ignores its
/// input; every other codec requires a present span.
pub open spec fn spec_decode_value(c: CodecV, input: Option<Seq<u8>>) -> Result<ValueV, DecodeError>
    decreases c, 1int,
{
    match c {
        CodecV::Nothing => Ok(ValueV::Nothing),
        _ => match input {
            None => Err(DecodeError::MissingRequiredElement),
            Some(s) => spec_decode_value_bytes(c, s),
        },
    }
}

/// What value codec `c` (not the Nothing codec) decodes from the bytes `s`.
pub open spec fn spec_decode_value_bytes(c: CodecV, s: Seq<u8>) -> Result<ValueV, DecodeError>
    decreases c, 0int,
{
    match c {
        CodecV::Nothing => Ok(ValueV::Nothing),
        CodecV::Uuid => match spec_decode_uuid(s) {
            Ok(b) => Ok(ValueV::Uuid(b)),
            Err(e) => Err(e),
        },
        CodecV::Str => match spec_decode_str(s) {
            Ok(t) => Ok(ValueV::Str(t)),
            Err(e) => Err(e),
        },
        CodecV::Bytes => Ok(ValueV::Bytes(s)),
        CodecV::Int16 => match spec_decode_i16(s) {
            Ok(x) => Ok(ValueV::Int16(x)),
            Err(e) => Err(e),
        },
        CodecV::Int32 => match spec_decode_i32(s) {
            Ok(x) => Ok(ValueV::Int32(x)),
            Err(e) => Err(e),
        },
        CodecV::Int64 => match spec_decode_i64(s) {
            Ok(x) => Ok(ValueV::Int64(x)),
            Err(e) => Err(e),
        },
        CodecV::Float32 => match spec_decode_float32(s) {
            Ok(bits) => Ok(ValueV::Float32(bits)),
            Err(e) => Err(e),
        },
        CodecV::Float64 => match spec_decode_float64(s) {
            Ok(bits) => Ok(ValueV::Float64(bits)),
            Err(e) => Err(e),
        },
        CodecV::BigInt => match spec_decode_bigint(s) {
            Ok(b) => Ok(ValueV::BigInt(b)),
            Err(e) => Err(e),
        },
        CodecV::Decimal => match spec_decode_decimal(s) {
            Ok(d) => Ok(ValueV::Decimal(d)),
            Err(e) => Err(e),
        },
        CodecV::Bool => match spec_decode_bool(s) {
            Ok(b) => Ok(ValueV::Bool(b)),
            Err(e) => Err(e),
        },
        CodecV::Datetime => match spec_decode_i64(s) {
            Ok(x) => Ok(ValueV::Datetime(x)),
            Err(e) => Err(e),
        },
        CodecV::LocalDatetime => match spec_decode_i64(s) {
            Ok(x) => Ok(ValueV::LocalDatetime(x)),
            Err(e) => Err(e),
        },
        CodecV::LocalDate => match spec_decode_local_date(s) {
            Ok(d) => Ok(ValueV::LocalDate(d)),
            Err(e) => Err(e),
        },
        CodecV::LocalTime => match spec_decode_local_time(s) {
            Ok(m) => Ok(ValueV::LocalTime(m)),
            Err(e) => Err(e),
        },
        CodecV::Duration => match spec_decode_duration(s) {
            Ok(m) => Ok(ValueV::Duration(m)),
            Err(e) => Err(e),
        },
        CodecV::Json => match spec_decode_json(s) {
            Ok(t) => Ok(ValueV::Json(t)),
            Err(e) => Err(e),
        },
        CodecV::Scalar(inner) => spec_decode_value_bytes(*inner, s),
        CodecV::Enum(members) => match spec_decode_str(s) {
            Err(e) => Err(e),
            Ok(t) => if members.contains(t) {
                Ok(ValueV::Enum(t))
            } else {
                Err(DecodeError::ExtraEnumValue)
            },
        },
        CodecV::SetOf(el) => match spec_array_header(s) {
            Err(e) => Err(e),
            Ok((count, off)) => match spec_decode_array_elements(*el, s, off, count as nat) {
                Err(e) => Err(e),
                Ok(items) => Ok(ValueV::SetOf(items)),
            },
        },
        CodecV::Array(el) => match spec_array_header(s) {
            Err(e) => Err(e),
            Ok((count, off)) => match spec_decode_array_elements(*el, s, off, count as nat) {
                Err(e) => Err(e),
                Ok(items) => Ok(ValueV::Array(items)),
            },
        },
        CodecV::Tuple(cs) => match spec_count_header(s) {
            Err(e) => Err(e),
            Ok(count) => if count != cs.len() {
                Err(DecodeError::ObjectSizeMismatch)
            } else {
                match spec_decode_tuple_fields(cs, s, 4) {
                    Err(e) => Err(e),
                    Ok(fields) => match spec_require_all(fields) {
                        Err(e) => Err(e),
                        Ok(items) => Ok(ValueV::Tuple(items)),
                    },
                }
            },
        },
        CodecV::InputTuple(cs) => match spec_count_header(s) {
            Err(e) => Err(e),
            Ok(count) => if count != cs.len() {
                Err(DecodeError::ObjectSizeMismatch)
            } else {
                match spec_decode_input_fields(cs, s, 4) {
                    Err(e) => Err(e),
                    Ok(fields) => match spec_require_all(fields) {
                        Err(e) => Err(e),
                        Ok(items) => Ok(ValueV::Tuple(items)),
                    },
                }
            },
        },
        CodecV::NamedTuple { shape, codecs } => match spec_count_header(s) {
            Err(e) => Err(e),
            Ok(count) => if count != codecs.len() {
                Err(DecodeError::ObjectSizeMismatch)
            } else {
                match spec_decode_tuple_fields(codecs, s, 4) {
                    Err(e) => Err(e),
                    Ok(fields) => match spec_require_all(fields) {
                        Err(e) => Err(e),
                        Ok(items) => Ok(ValueV::NamedTuple { shape, fields: items }),
                    },
                }
            },
        },
        CodecV::InputNamedTuple { shape, codecs } => match spec_count_header(s) {
            Err(e) => Err(e),
            Ok(count) => if count != codecs.len() {
                Err(DecodeError::ObjectSizeMismatch)
            } else {
                match spec_decode_input_fields(codecs, s, 4) {
                    Err(e) => Err(e),
                    Ok(fields) => match spec_require_all(fields) {
                        Err(e) => Err(e),
                        Ok(items) => Ok(ValueV::NamedTuple { shape, fields: items }),
                    },
                }
            },
        },
        CodecV::Object { shape, codecs } => match spec_count_header(s) {
            Err(e) => Err(e),
            Ok(count) => if count != codecs.len() {
                Err(DecodeError::ObjectSizeMismatch)
            } else {
                match spec_decode_tuple_fields(codecs, s, 4) {
                    Err(e) => Err(e),
                    Ok(fields) => Ok(ValueV::Object { shape, fields }),
                }
            },
        },
    }
}

// ---------------------------------------------------------------------------
// The encode specification: what bytes a codec writes for a value.
// ---------------------------------------------------------------------------
/// Encodes the elements of an array or set: each element's payload behind
/// its length word.
pub open spec fn spec_encode_array_elements(c: CodecV, items: Seq<ValueV>) -> Result<
    Seq<u8>,
    EncodeError,
>
    decreases c, items.len() + 1,
{
    if items.len() == 0 {
        Ok(Seq::empty())
    } else {
        match spec_encode_value(c, items[0]) {
            Err(e) => Err(e),
            Ok(payload) => if payload.len() > MAX_ELEMENT_LENGTH {
                Err(EncodeError::ElementTooLong)
            } else {
                match spec_encode_array_elements(c, items.drop_first()) {
                    Err(e) => Err(e),
                    Ok(rest) => Ok(spec_u32_be(payload.len() as u32) + payload + rest),
                }
            },
        }
    }
}

/// Encodes tuple elements in server-to-client framing: a zero reserved word,
/// the length word, the payload.
pub open spec fn spec_encode_tuple_elements(cs: Seq<CodecV>, items: Seq<ValueV>) -> Result<
    Seq<u8>,
    EncodeError,
>
    decreases cs,
{
    if cs.len() == 0 {
        Ok(Seq::empty())
    } else {
        match spec_encode_value(cs[0], items[0]) {
            Err(e) => Err(e),
            Ok(payload) => if payload.len() > MAX_ELEMENT_LENGTH {
                Err(EncodeError::ElementTooLong)
            } else {
                match spec_encode_tuple_elements(cs.drop_first(), items.drop_first()) {
                    Err(e) => Err(e),
                    Ok(rest) => Ok(
                        spec_u32_be(0u32) + spec_u32_be(payload.len() as u32) + payload + rest,
                    ),
                }
            },
        }
    }
}

/// Encodes tuple elements in client-to-server framing: the length word, the
/// payload.
pub open spec fn spec_encode_input_elements(cs: Seq<CodecV>, items: Seq<ValueV>) -> Result<
    Seq<u8>,
    EncodeError,
>
    decreases cs,
{
    if cs.len() == 0 {
        Ok(Seq::empty())
    } else {
        match spec_encode_value(cs[0], items[0]) {
            Err(e) => Err(e),
            Ok(payload) => if payload.len() > MAX_ELEMENT_LENGTH {
                Err(EncodeError::ElementTooLong)
            } else {
                match spec_encode_input_elements(cs.drop_first(), items.drop_first()) {
                    Err(e) => Err(e),
                    Ok(rest) => Ok(spec_u32_be(payload.len() as u32) + payload + rest),
                }
            },
        }
    }
}

/// Encodes object fields: a present field like a tuple element, an absent
/// field as the null sentinel.
pub open spec fn spec_encode_object_fields(cs: Seq<CodecV>, fields: Seq<Option<ValueV>>) -> Result<
    Seq<u8>,
    EncodeError,
>
    decreases cs,
{
    if cs.len() == 0 {
        Ok(Seq::empty())
    } else {
        match fields[0] {
            None => match spec_encode_object_fields(cs.drop_first(), fields.drop_first()) {
                Err(e) => Err(e),
                Ok(rest) => Ok(spec_null_element() + rest),
            },
            Some(v) => match spec_encode_value(cs[0], v) {
                Err(e) => Err(e),
                Ok(payload) => if payload.len() > MAX_ELEMENT_LENGTH {
                    Err(EncodeError::ElementTooLong)
                } else {
                    match spec_encode_object_fields(cs.drop_first(), fields.drop_first()) {
                        Err(e) => Err(e),
                        Ok(rest) => Ok(
                            spec_u32_be(0u32) + spec_u32_be(payload.len() as u32) + payload + rest,
                        ),
                    }
                },
            },
        }
    }
}

/// The header of a non-empty array-like container holding `n` elements.
pub open spec fn spec_array_like_header(n: u32) -> Seq<u8> {
    spec_u32_be(1u32) + spec_u32_be(0u32) + spec_u32_be(0u32) + spec_u32_be(n) + spec_u32_be(1u32)
}

/// The 12-byte header of an empty array-like container.
pub open spec fn spec_empty_array_like() -> Seq<u8> {
    spec_u32_be(0u32) + spec_u32_be(0u32) + spec_u32_be(0u32)
}

/// What bytes codec `c` writes for value `v`, or which error rejects the
/// pair.
pub open spec fn spec_encode_value(c: CodecV, v: ValueV) -> Result<Seq<u8>, EncodeError>
    decreases c, 0int,
{
    match c {
        CodecV::Nothing => match v {
            ValueV::Nothing => Ok(Seq::empty()),
            _ => Err(EncodeError::InvalidValue),
        },
        CodecV::Uuid => match v {
            ValueV::Uuid(bits) => Ok(spec_u128_be(bits)),
            _ => Err(EncodeError::InvalidValue),
        },
        CodecV::Str => match v {
            ValueV::Str(t) => Ok(encode_utf8(t)),
            _ => Err(EncodeError::InvalidValue),
        },
        CodecV::Bytes => match v {
            ValueV::Bytes(b) => Ok(b),
            _ => Err(EncodeError::InvalidValue),
        },
        CodecV::Int16 => match v {
            ValueV::Int16(x) => Ok(spec_i16_be(x)),
            _ => Err(EncodeError::InvalidValue),
        },
        CodecV::Int32 => match v {
            ValueV::Int32(x) => Ok(spec_i32_be(x)),
            _ => Err(EncodeError::InvalidValue),
        },
        CodecV::Int64 => match v {
            ValueV::Int64(x) => Ok(spec_i64_be(x)),
            _ => Err(EncodeError::InvalidValue),
        },
        CodecV::Float32 => match v {
            ValueV::Float32(bits) => Ok(spec_u32_be(bits)),
            _ => Err(EncodeError::InvalidValue),
        },
        CodecV::Float64 => match v {
            ValueV::Float64(bits) => Ok(spec_u64_be(bits)),
            _ => Err(EncodeError::InvalidValue),
        },
        CodecV::BigInt => match v {
            ValueV::BigInt(b) => if b.digits.len() <= 0xffff {
                Ok(spec_encode_bigint(b))
            } else {
                Err(EncodeError::BigIntTooLong)
            },
            _ => Err(EncodeError::InvalidValue),
        },
        CodecV::Decimal => match v {
            ValueV::Decimal(d) => if d.digits.len() <= 0xffff {
                Ok(spec_encode_decimal(d))
            } else {
                Err(EncodeError::BigIntTooLong)
            },
            _ => Err(EncodeError::InvalidValue),
        },
        CodecV::Bool => match v {
            ValueV::Bool(b) => Ok(spec_encode_bool(b)),
            _ => Err(EncodeError::InvalidValue),
        },
        CodecV::Datetime => match v {
            ValueV::Datetime(m) => Ok(spec_i64_be(m)),
            _ => Err(EncodeError::InvalidValue),
        },
        CodecV::LocalDatetime => match v {
            ValueV::LocalDatetime(m) => Ok(spec_i64_be(m)),
            _ => Err(EncodeError::InvalidValue),
        },
        CodecV::LocalDate => match v {
            ValueV::LocalDate(d) => Ok(spec_i32_be(d)),
            _ => Err(EncodeError::InvalidValue),
        },
        CodecV::LocalTime => match v {
            ValueV::LocalTime(m) => Ok(spec_i64_be(m as i64)),
            _ => Err(EncodeError::InvalidValue),
        },
        CodecV::Duration => match v {
            ValueV::Duration(m) => Ok(spec_encode_duration(m)),
            _ => Err(EncodeError::InvalidValue),
        },
        CodecV::Json => match v {
            ValueV::Json(t) => Ok(spec_encode_json(t)),
            _ => Err(EncodeError::InvalidValue),
        },
        CodecV::Scalar(inner) => spec_encode_value(*inner, v),
        CodecV::Enum(members) => match v {
            ValueV::Enum(t) => if members.contains(t) {
                Ok(encode_utf8(t))
            } else {
                Err(EncodeError::MissingEnumValue)
            },
            _ => Err(EncodeError::InvalidValue),
        },
        CodecV::SetOf(el) => match v {
            ValueV::SetOf(items) => spec_encode_array_like(*el, items),
            _ => Err(EncodeError::InvalidValue),
        },
        CodecV::Array(el) => match v {
            ValueV::Array(items) => spec_encode_array_like(*el, items),
            _ => Err(EncodeError::InvalidValue),
        },
        CodecV::Tuple(cs) => match v {
            ValueV::Tuple(items) => if cs.len() != items.len() {
                Err(EncodeError::TupleShapeMismatch)
            } else if cs.len() > 0xffff_ffff {
                Err(EncodeError::TooManyElements)
            } else {
                match spec_encode_tuple_elements(cs, items) {
                    Err(e) => Err(e),
                    Ok(body) => Ok(spec_u32_be(cs.len() as u32) + body),
                }
            },
            _ => Err(EncodeError::InvalidValue),
        },
        CodecV::InputTuple(cs) => match v {
            ValueV::Tuple(items) => if cs.len() != items.len() {
                Err(EncodeError::TupleShapeMismatch)
            } else if cs.len() > 0xffff_ffff {
                Err(EncodeError::TooManyElements)
            } else {
                match spec_encode_input_elements(cs, items) {
                    Err(e) => Err(e),
                    Ok(body) => Ok(spec_u32_be(cs.len() as u32) + body),
                }
            },
            _ => Err(EncodeError::InvalidValue),
        },
        CodecV::NamedTuple { shape, codecs } => match v {
            ValueV::NamedTuple { shape: vshape, fields } => if vshape != shape {
                Err(EncodeError::TupleShapeMismatch)
            } else if codecs.len() != fields.len() {
                Err(EncodeError::ObjectShapeMismatch)
            } else if codecs.len() > 0xffff_ffff {
                Err(EncodeError::TooManyElements)
            } else {
                match spec_encode_tuple_elements(codecs, fields) {
                    Err(e) => Err(e),
                    Ok(body) => Ok(spec_u32_be(codecs.len() as u32) + body),
                }
            },
            _ => Err(EncodeError::InvalidValue),
        },
        CodecV::InputNamedTuple { shape, codecs } => match v {
            ValueV::NamedTuple { shape: vshape, fields } => if vshape != shape {
                Err(EncodeError::TupleShapeMismatch)
            } else if codecs.len() != fields.len() {
                Err(EncodeError::ObjectShapeMismatch)
            } else if codecs.len() > 0xffff_ffff {
                Err(EncodeError::TooManyElements)
            } else {
                match spec_encode_input_elements(codecs, fields) {
                    Err(e) => Err(e),
                    Ok(body) => Ok(spec_u32_be(codecs.len() as u32) + body),
                }
            },
            _ => Err(EncodeError::InvalidValue),
        },
        CodecV::Object { shape, codecs } => match v {
            ValueV::Object { shape: vshape, fields } => if vshape != shape {
                Err(EncodeError::ObjectShapeMismatch)
            } else if codecs.len() != fields.len() {
                Err(EncodeError::ObjectShapeMismatch)
            } else if codecs.len() > 0xffff_ffff {
                Err(EncodeError::TooManyElements)
            } else {
                match spec_encode_object_fields(codecs, fields) {
                    Err(e) => Err(e),
                    Ok(body) => Ok(spec_u32_be(codecs.len() as u32) + body),
                }
            },
            _ => Err(EncodeError::InvalidValue),
        },
    }
}

// ---------------------------------------------------------------------------
// Executable decoding.
// ---------------------------------------------------------------------------
/// Picks the stored member string equal to `text`, if any.
fn find_member(members: &Vec<String>, text: &String) -> (r: Option<usize>)
    ensures
        r matches Some(i) ==> i < members@.len() && members@[i as int]@ == text@,
        r is None ==> forall|j: int| 0 <= j < members@.len() ==> members@[j]@ != text@,
{
    let n = members.len();
    let mut i: usize = 0;
    while i < n
        invariant
            i <= n,
            n == members@.len(),
            forall|j: int| 0 <= j < i ==> members@[j]@ != text@,
        decreases n - i,
    {
        if members[i].eq(text) {
            return Some(i);
        }
        i = i + 1;
    }
    None
}

/// Turns decoded fields into required elements: any absent field is a
/// missing required element.
fn require_all(fields: Vec<Option<Value>>) -> (r: Result<Vec<Value>, DecodeError>)
    ensures
        match spec_require_all(crate::value::opt_values_view(fields@)) {
            Ok(items) => r matches Ok(vs) && crate::value::values_view(vs@) == items,
            Err(e) => r == Err::<Vec<Value>, DecodeError>(e),
        },
{
    let ghost orig = fields@;
    let ghost ov = crate::value::opt_values_view(fields@);
    let mut rest = fields;
    let mut out: Vec<Value> = Vec::new();
    proof {
        crate::value::lemma_opt_values_view(orig);
    }
    #[verifier::loop_isolation(false)]
    while rest.len() > 0
        invariant
            ov == crate::value::opt_values_view(orig),
            ov.len() == orig.len(),
            forall|i: int|
                0 <= i < orig.len() ==> #[trigger] ov[i] == (match orig[i] {
                    Some(v) => Some(crate::value::value_view(v)),
                    None => None,
                }),
            out@.len() + rest@.len() == orig.len(),
            rest@ =~= orig.skip(out@.len() as int),
            forall|i: int| 0 <= i < out@.len() ==> (#[trigger] ov[i]) is Some,
            crate::value::values_view(out@) =~= ov.take(out@.len() as int).map_values(
                |o: Option<ValueV>| o->Some_0,
            ),
        decreases rest@.len(),
    {
        let ghost k = out@.len() as int;
        let f = rest.remove(0);
        proof {
            assert(f == orig[k]);
            assert(rest@ =~= orig.skip(k + 1));
        }
        match f {
            None => {
                proof {
                    assert(ov[k] is None);
                    assert(!(forall|i: int| 0 <= i < ov.len() ==> ov[i] is Some));
                    assert(spec_require_all(ov) == Err::<Seq<ValueV>, DecodeError>(
                        DecodeError::MissingRequiredElement,
                    ));
                    assert(ov == crate::value::opt_values_view(orig));
                    assert(spec_require_all(ov) == Err::<Seq<ValueV>, DecodeError>(
                        DecodeError::MissingRequiredElement,
                    ));
                }
                return Err(DecodeError::MissingRequiredElement);
            },
            Some(v) => {
                proof {
                    crate::value::lemma_values_view_push(out@, v);
                    assert(ov[k] == Some(crate::value::value_view(v)));
                    assert(crate::value::values_view(out@.push(v)) =~= ov.take(k + 1).map_values(
                        |o: Option<ValueV>| o->Some_0,
                    ));
                }
                out.push(v);
            },
        }
    }
    proof {
        assert(out@.len() == orig.len());
        assert forall|i: int| 0 <= i < ov.len() implies (#[trigger] ov[i]) is Some by {}
        let items = Seq::new(ov.len(), |i: int| ov[i]->Some_0);
        assert(crate::value::values_view(out@) =~= items);
    }
    Ok(out)
}

/// Decodes the elements of an array-like container after its header.
fn decode_array_items(el: &Codec, s: &[u8]) -> (r: Result<Vec<Value>, DecodeError>)
    ensures
        match spec_array_header(s@) {
            Err(e) => r == Err::<Vec<Value>, DecodeError>(e),
            Ok((count, off)) => match spec_decode_array_elements(el@, s@, off, count as nat) {
                Ok(items) => r matches Ok(vs) && crate::value::values_view(vs@) == items,
                Err(e) => r == Err::<Vec<Value>, DecodeError>(e),
            },
        },
    decreases *el, 7int,
{
    let (count, header_len) = match crate::decode_composite::read_array_header(s) {
        Ok(h) => h,
        Err(e) => {
            return Err(e);
        },
    };
    let ghost off0 = header_len as int;
    let mut out: Vec<Value> = Vec::new();
    let mut pos: usize = header_len;
    let mut i: u64 = 0;
    proof {
        assert(spec_array_header(s@) matches Ok((c, o)) && c == count && o == off0);
        assert(pos <= s@.len());
    }
    while i < count
        invariant
            i <= count,
            pos <= s@.len(),
            el@ == codec_view(*el),
            spec_array_header(s@) == Ok::<(int, int), DecodeError>((count as int, off0)),
            match spec_decode_array_elements(el@, s@, pos as int, (count - i) as nat) {
                Ok(rest) => spec_decode_array_elements(el@, s@, off0, count as nat) == Ok::<
                    Seq<ValueV>,
                    DecodeError,
                >(crate::value::values_view(out@) + rest),
                Err(e) => spec_decode_array_elements(el@, s@, off0, count as nat) == Err::<
                    Seq<ValueV>,
                    DecodeError,
                >(e),
            },
        decreases count - i,
    {
        let (span, npos) = match crate::decode_composite::read_array_element(s, pos) {
            Ok(x) => x,
            Err(e) => {
                return Err(e);
            },
        };
        let v = match el.decode(crate::serialization::Input(Some(span))) {
            Ok(v) => v,
            Err(e) => {
                return Err(e);
            },
        };
        proof {
            crate::value::lemma_values_view_push(out@, v);
            let vv = crate::value::value_view(v);
            match spec_decode_array_elements(el@, s@, npos as int, (count - i - 1) as nat) {
                Ok(rest) => {
                    assert(crate::value::values_view(out@) + (seq![vv] + rest)
                        =~= crate::value::values_view(out@.push(v)) + rest);
                },
                Err(e) => {},
            }
        }
        out.push(v);
        pos = npos;
        i = i + 1;
    }
    proof {
        assert(spec_decode_array_elements(el@, s@, pos as int, 0) == Ok::<Seq<ValueV>, DecodeError>(
            Seq::<ValueV>::empty(),
        ));
        assert(crate::value::values_view(out@) + Seq::<ValueV>::empty() =~= crate::value::values_view(out@));
    }
    Ok(out)
}

/// Decodes the fields of server-to-client tuple-like framing, after the
/// count header.
fn decode_tuple_like_fields(codecs: &Vec<Codec>, s: &[u8]) -> (r: Result<
    Vec<Option<Value>>,
    DecodeError,
>)
    requires
        4 <= s@.len(),
    ensures
        match spec_decode_tuple_fields(codecs_view(codecs@), s@, 4) {
            Ok(fields) => r matches Ok(fs) && crate::value::opt_values_view(fs@) == fields,
            Err(e) => r == Err::<Vec<Option<Value>>, DecodeError>(e),
        },
    decreases codecs@, 7int,
{
    let ghost cv = codecs_view(codecs@);
    let n = codecs.len();
    let mut out: Vec<Option<Value>> = Vec::new();
    let mut pos: usize = 4;
    let mut i: usize = 0;
    proof {
        lemma_codecs_view(codecs@);
        assert(cv.skip(0) =~= cv);
    }
    while i < n
        invariant
            i <= n,
            n == codecs@.len(),
            pos <= s@.len(),
            cv == codecs_view(codecs@),
            cv.len() == n,
            forall|j: int| 0 <= j < n ==> #[trigger] cv[j] == codec_view(codecs@[j]),
            match spec_decode_tuple_fields(cv.skip(i as int), s@, pos as int) {
                Ok(rest) => spec_decode_tuple_fields(cv, s@, 4) == Ok::<
                    Seq<Option<ValueV>>,
                    DecodeError,
                >(crate::value::opt_values_view(out@) + rest),
                Err(e) => spec_decode_tuple_fields(cv, s@, 4) == Err::<
                    Seq<Option<ValueV>>,
                    DecodeError,
                >(e),
            },
        decreases n - i,
    {
        proof {
            assert(cv.skip(i as int)[0] == cv[i as int]);
            assert(cv.skip(i as int).drop_first() =~= cv.skip(i + 1));
        }
        let (elem, npos) = match crate::decode_composite::read_tuple_like_element(s, pos) {
            Ok(x) => x,
            Err(e) => {
                return Err(e);
            },
        };
        let f: Option<Value> = match elem.0 {
            None => None,
            Some(b) => {
                let v = match codecs[i].decode(crate::serialization::Input(Some(b))) {
                    Ok(v) => v,
                    Err(e) => {
                        return Err(e);
                    },
                };
                Some(v)
            },
        };
        proof {
            crate::value::lemma_opt_values_view_push(out@, f);
            let fv = (match &f {
                Some(v) => Some(crate::value::value_view(*v)),
                None => None,
            });
            assert(spec_decode_field(cv[i as int], elem@) == Ok::<Option<ValueV>, DecodeError>(fv));
            match spec_decode_tuple_fields(cv.skip(i + 1), s@, npos as int) {
                Ok(rest) => {
                    assert(crate::value::opt_values_view(out@) + (seq![fv] + rest)
                        =~= crate::value::opt_values_view(out@.push(f)) + rest);
                },
                Err(e) => {},
            }
        }
        out.push(f);
        pos = npos;
        i = i + 1;
    }
    proof {
        assert(cv.skip(n as int) =~= Seq::<CodecV>::empty());
        assert(crate::value::opt_values_view(out@) + Seq::<Option<ValueV>>::empty()
            =~= crate::value::opt_values_view(out@));
    }
    Ok(out)
}

/// Decodes the fields of client-to-server tuple-like framing, after the
/// count header.
fn decode_input_fields(codecs: &Vec<Codec>, s: &[u8]) -> (r: Result<
    Vec<Option<Value>>,
    DecodeError,
>)
    requires
        4 <= s@.len(),
    ensures
        match spec_decode_input_fields(codecs_view(codecs@), s@, 4) {
            Ok(fields) => r matches Ok(fs) && crate::value::opt_values_view(fs@) == fields,
            Err(e) => r == Err::<Vec<Option<Value>>, DecodeError>(e),
        },
    decreases codecs@, 7int,
{
    let ghost cv = codecs_view(codecs@);
    let n = codecs.len();
    let mut out: Vec<Option<Value>> = Vec::new();
    let mut pos: usize = 4;
    let mut i: usize = 0;
    proof {
        lemma_codecs_view(codecs@);
        assert(cv.skip(0) =~= cv);
    }
    while i < n
        invariant
            i <= n,
            n == codecs@.len(),
            pos <= s@.len(),
            cv == codecs_view(codecs@),
            cv.len() == n,
            forall|j: int| 0 <= j < n ==> #[trigger] cv[j] == codec_view(codecs@[j]),
            match spec_decode_input_fields(cv.skip(i as int), s@, pos as int) {
                Ok(rest) => spec_decode_input_fields(cv, s@, 4) == Ok::<
                    Seq<Option<ValueV>>,
                    DecodeError,
                >(crate::value::opt_values_view(out@) + rest),
                Err(e) => spec_decode_input_fields(cv, s@, 4) == Err::<
                    Seq<Option<ValueV>>,
                    DecodeError,
                >(e),
            },
        decreases n - i,
    {
        proof {
            assert(cv.skip(i as int)[0] == cv[i as int]);
            assert(cv.skip(i as int).drop_first() =~= cv.skip(i + 1));
        }
        let (elem, npos) = match crate::decode_composite::read_input_element(s, pos) {
            Ok(x) => x,
            Err(e) => {
                return Err(e);
            },
        };
        let f: Option<Value> = match elem.0 {
            None => None,
            Some(b) => {
                let v = match codecs[i].decode(crate::serialization::Input(Some(b))) {
                    Ok(v) => v,
                    Err(e) => {
                        return Err(e);
                    },
                };
                Some(v)
            },
        };
        proof {
            crate::value::lemma_opt_values_view_push(out@, f);
            let fv = (match &f {
                Some(v) => Some(crate::value::value_view(*v)),
                None => None,
            });
            assert(spec_decode_field(cv[i as int], elem@) == Ok::<Option<ValueV>, DecodeError>(fv));
            match spec_decode_input_fields(cv.skip(i + 1), s@, npos as int) {
                Ok(rest) => {
                    assert(crate::value::opt_values_view(out@) + (seq![fv] + rest)
                        =~= crate::value::opt_values_view(out@.push(f)) + rest);
                },
                Err(e) => {},
            }
        }
        out.push(f);
        pos = npos;
        i = i + 1;
    }
    proof {
        assert(cv.skip(n as int) =~= Seq::<CodecV>::empty());
        assert(crate::value::opt_values_view(out@) + Seq::<Option<ValueV>>::empty()
            =~= crate::value::opt_values_view(out@));
    }
    Ok(out)
}

/// Reads the count header and insists it matches the codec's element count.
fn check_count(s: &[u8], expected: usize) -> (r: Result<(), DecodeError>)
    ensures
        match spec_count_header(s@) {
            Err(e) => r == Err::<(), DecodeError>(e),
            Ok(count) => if count == expected {
                r is Ok && s@.len() >= 4
            } else {
                r == Err::<(), DecodeError>(DecodeError::ObjectSizeMismatch)
            },
        },
{
    let count = crate::decode_composite::read_count_header(s)?;
    if expected > u32::MAX as usize || count != expected as u32 {
        return Err(DecodeError::ObjectSizeMismatch);
    }
    Ok(())
}

impl Codec {
    /// Decodes one value from the input span. The Nothing codec ignores its
    /// input; every other codec requires a present span.
    pub fn decode(&self, input: Input<'_>) -> (r: Result<Value, DecodeError>)
        ensures
            match spec_decode_value(self@, input@) {
                Ok(v) => r matches Ok(val) && val@ == v,
                Err(e) => r == Err::<Value, DecodeError>(e),
            },
        decreases *self, 6int,
    {
        if matches!(self, Codec::Nothing) {
            return Ok(Value::Nothing);
        }
        let bytes = input.bytes()?;
        self.decode_bytes(bytes)
    }

    /// Decodes one value from present bytes.
    fn decode_bytes(&self, s: &[u8]) -> (r: Result<Value, DecodeError>)
        ensures
            match spec_decode_value_bytes(self@, s@) {
                Ok(v) => r matches Ok(val) && val@ == v,
                Err(e) => r == Err::<Value, DecodeError>(e),
            },
        decreases *self, 5int,
    {
        match self {
            Codec::Nothing => Ok(Value::Nothing),
            Codec::Uuid => {
                let u = crate::scalars::decode_uuid(s)?;
                Ok(Value::Uuid(u))
            },
            Codec::Str => {
                let t = crate::scalars::decode_str(s)?;
                Ok(Value::Str(t))
            },
            Codec::Bytes => {
                let b = crate::scalars::decode_bytes(s)?;
                Ok(Value::Bytes(b))
            },
            Codec::Int16 => {
                let x = crate::scalars::decode_i16(s)?;
                Ok(Value::Int16(x))
            },
            Codec::Int32 => {
                let x = crate::scalars::decode_i32(s)?;
                Ok(Value::Int32(x))
            },
            Codec::Int64 => {
                let x = crate::scalars::decode_i64(s)?;
                Ok(Value::Int64(x))
            },
            Codec::Float32 => {
                let bits = crate::scalars::decode_float32_bits(s)?;
                Ok(Value::Float32(bits))
            },
            Codec::Float64 => {
                let bits = crate::scalars::decode_float64_bits(s)?;
                Ok(Value::Float64(bits))
            },
            Codec::BigInt => {
                let b = crate::scalars::decode_bigint(s)?;
                Ok(Value::BigInt(b))
            },
            Codec::Decimal => {
                let d = crate::scalars::decode_decimal(s)?;
                Ok(Value::Decimal(d))
            },
            Codec::Bool => {
                let b = crate::scalars::decode_bool(s)?;
                Ok(Value::Bool(b))
            },
            Codec::Datetime => {
                let d = crate::scalars::decode_datetime(s)?;
                Ok(Value::Datetime(d))
            },
            Codec::LocalDatetime => {
                let d = crate::scalars::decode_local_datetime(s)?;
                Ok(Value::LocalDatetime(d))
            },
            Codec::LocalDate => {
                let d = crate::scalars::decode_local_date(s)?;
                Ok(Value::LocalDate(d))
            },
            Codec::LocalTime => {
                let t = crate::scalars::decode_local_time(s)?;
                Ok(Value::LocalTime(t))
            },
            Codec::Duration => {
                let d = crate::scalars::decode_duration(s)?;
                Ok(Value::Duration(d))
            },
            Codec::Json => {
                let t = crate::scalars::decode_json(s)?;
                Ok(Value::Json(t))
            },
            Codec::Scalar(inner) => inner.decode_bytes(s),
            Codec::Enum(members) => {
                let text = crate::scalars::decode_str(s)?;
                let ghost mview = Seq::new(members@.len(), |i: int| members@[i]@);
                match find_member(members, &text) {
                    Some(i) => {
                        proof {
                            assert(mview[i as int] == text@);
                            assert(mview.contains(text@));
                        }
                        Ok(Value::Enum(crate::value::EnumValue(members[i].clone())))
                    },
                    None => {
                        proof {
                            assert(forall|j: int| 0 <= j < mview.len() ==> mview[j] != text@);
                            assert(!mview.contains(text@));
                        }
                        Err(DecodeError::ExtraEnumValue)
                    },
                }
            },
            Codec::SetOf(el) => {
                let items = decode_array_items(el, s)?;
                Ok(Value::SetOf(items))
            },
            Codec::Array(el) => {
                let items = decode_array_items(el, s)?;
                Ok(Value::Array(items))
            },
            Codec::Tuple(cs) => {
                proof {
                    lemma_codecs_view(cs@);
                }
                check_count(s, cs.len())?;
                let fields = decode_tuple_like_fields(cs, s)?;
                let items = require_all(fields)?;
                Ok(Value::Tuple(items))
            },
            Codec::InputTuple(cs) => {
                proof {
                    lemma_codecs_view(cs@);
                }
                check_count(s, cs.len())?;
                let fields = decode_input_fields(cs, s)?;
                let items = require_all(fields)?;
                Ok(Value::Tuple(items))
            },
            Codec::NamedTuple { shape, codecs } => {
                proof {
                    lemma_codecs_view(codecs@);
                }
                check_count(s, codecs.len())?;
                let fields = decode_tuple_like_fields(codecs, s)?;
                let items = require_all(fields)?;
                Ok(Value::NamedTuple { shape: shape.share(), fields: items })
            },
            Codec::InputNamedTuple { shape, codecs } => {
                proof {
                    lemma_codecs_view(codecs@);
                }
                check_count(s, codecs.len())?;
                let fields = decode_input_fields(codecs, s)?;
                let items = require_all(fields)?;
                Ok(Value::NamedTuple { shape: shape.share(), fields: items })
            },
            Codec::Object { shape, codecs } => {
                proof {
                    lemma_codecs_view(codecs@);
                }
                check_count(s, codecs.len())?;
                let fields = decode_tuple_like_fields(codecs, s)?;
                Ok(Value::Object { shape: shape.share(), fields })
            },
        }
    }
}

// ---------------------------------------------------------------------------
// Executable encoding. On success, the encoding of the value is appended to
// the buffer; when an error is returned, bytes already written stay in the
// buffer, which the caller must discard.
// ---------------------------------------------------------------------------
/// Encodes the elements of an array or set.
fn encode_array_items(el: &Codec, out: &mut Output, items: &Vec<Value>) -> (r: Result<
    (),
    EncodeError,
>)
    ensures
        match spec_encode_array_elements(el@, crate::value::values_view(items@)) {
            Ok(bs) => r is Ok && final(out)@ == old(out)@ + bs,
            Err(e) => r == Err::<(), EncodeError>(e),
        },
    decreases *el, 7int,
{
    let ghost vitems = crate::value::values_view(items@);
    let n = items.len();
    let mut i: usize = 0;
    proof {
        crate::value::lemma_values_view(items@);
        assert(vitems.skip(0) =~= vitems);
    }
    while i < n
        invariant
            i <= n,
            n == items@.len(),
            vitems == crate::value::values_view(items@),
            vitems.len() == n,
            forall|j: int|
                0 <= j < n ==> #[trigger] vitems[j] == crate::value::value_view(items@[j]),
            match spec_encode_array_elements(el@, vitems.skip(i as int)) {
                Ok(rest) => spec_encode_array_elements(el@, vitems) matches Ok(all) && out@ + rest
                    == old(out)@ + all,
                Err(e) => spec_encode_array_elements(el@, vitems) == Err::<Seq<u8>, EncodeError>(
                    e,
                ),
            },
        decreases n - i,
    {
        proof {
            assert(vitems.skip(i as int)[0] == vitems[i as int]);
            assert(vitems.skip(i as int).drop_first() =~= vitems.skip(i + 1));
        }
        let ghost before = out@;
        let pos = crate::encode_composite::begin_length(out);
        match el.encode(out, &items[i]) {
            Ok(..) => {},
            Err(e) => {
                return Err(e);
            },
        }
        match crate::encode_composite::finish_length(out, pos) {
            Ok(..) => {},
            Err(e) => {
                return Err(e);
            },
        }
        proof {
            let payload = spec_encode_value(el@, vitems[i as int])->Ok_0;
            assert(out@ =~= before + spec_u32_be(payload.len() as u32) + payload);
        }
        i = i + 1;
    }
    proof {
        assert(vitems.skip(n as int) =~= Seq::<ValueV>::empty());
        assert(out@ =~= old(out)@ + spec_encode_array_elements(el@, vitems)->Ok_0);
    }
    Ok(())
}

/// Encodes tuple elements in server-to-client framing.
fn encode_tuple_items(codecs: &Vec<Codec>, out: &mut Output, items: &Vec<Value>) -> (r: Result<
    (),
    EncodeError,
>)
    requires
        codecs@.len() == items@.len(),
    ensures
        match spec_encode_tuple_elements(codecs_view(codecs@), crate::value::values_view(items@)) {
            Ok(bs) => r is Ok && final(out)@ == old(out)@ + bs,
            Err(e) => r == Err::<(), EncodeError>(e),
        },
    decreases codecs@, 7int,
{
    let ghost cv = codecs_view(codecs@);
    let ghost vitems = crate::value::values_view(items@);
    let n = codecs.len();
    let mut i: usize = 0;
    proof {
        lemma_codecs_view(codecs@);
        crate::value::lemma_values_view(items@);
        assert(cv.skip(0) =~= cv);
        assert(vitems.skip(0) =~= vitems);
    }
    while i < n
        invariant
            i <= n,
            n == codecs@.len() == items@.len(),
            cv == codecs_view(codecs@),
            vitems == crate::value::values_view(items@),
            cv.len() == n && vitems.len() == n,
            forall|j: int| 0 <= j < n ==> #[trigger] cv[j] == codec_view(codecs@[j]),
            forall|j: int|
                0 <= j < n ==> #[trigger] vitems[j] == crate::value::value_view(items@[j]),
            match spec_encode_tuple_elements(cv.skip(i as int), vitems.skip(i as int)) {
                Ok(rest) => spec_encode_tuple_elements(cv, vitems) matches Ok(all) && out@ + rest
                    == old(out)@ + all,
                Err(e) => spec_encode_tuple_elements(cv, vitems) == Err::<Seq<u8>, EncodeError>(e),
            },
        decreases n - i,
    {
        proof {
            assert(cv.skip(i as int)[0] == cv[i as int]);
            assert(cv.skip(i as int).drop_first() =~= cv.skip(i + 1));
            assert(vitems.skip(i as int)[0] == vitems[i as int]);
            assert(vitems.skip(i as int).drop_first() =~= vitems.skip(i + 1));
        }
        let ghost before = out@;
        out.put_u32(0);
        let pos = crate::encode_composite::begin_length(out);
        match codecs[i].encode(out, &items[i]) {
            Ok(..) => {},
            Err(e) => {
                return Err(e);
            },
        }
        match crate::encode_composite::finish_length(out, pos) {
            Ok(..) => {},
            Err(e) => {
                return Err(e);
            },
        }
        proof {
            let payload = spec_encode_value(cv[i as int], vitems[i as int])->Ok_0;
            assert(out@ =~= before + spec_u32_be(0u32) + spec_u32_be(payload.len() as u32)
                + payload);
        }
        i = i + 1;
    }
    proof {
        assert(cv.skip(n as int) =~= Seq::<CodecV>::empty());
        assert(out@ =~= old(out)@ + spec_encode_tuple_elements(cv, vitems)->Ok_0);
    }
    Ok(())
}

/// Encodes tuple elements in client-to-server framing.
fn encode_input_items(codecs: &Vec<Codec>, out: &mut Output, items: &Vec<Value>) -> (r: Result<
    (),
    EncodeError,
>)
    requires
        codecs@.len() == items@.len(),
    ensures
        match spec_encode_input_elements(codecs_view(codecs@), crate::value::values_view(items@)) {
            Ok(bs) => r is Ok && final(out)@ == old(out)@ + bs,
            Err(e) => r == Err::<(), EncodeError>(e),
        },
    decreases codecs@, 7int,
{
    let ghost cv = codecs_view(codecs@);
    let ghost vitems = crate::value::values_view(items@);
    let n = codecs.len();
    let mut i: usize = 0;
    proof {
        lemma_codecs_view(codecs@);
        crate::value::lemma_values_view(items@);
        assert(cv.skip(0) =~= cv);
        assert(vitems.skip(0) =~= vitems);
    }
    while i < n
        invariant
            i <= n,
            n == codecs@.len() == items@.len(),
            cv == codecs_view(codecs@),
            vitems == crate::value::values_view(items@),
            cv.len() == n && vitems.len() == n,
            forall|j: int| 0 <= j < n ==> #[trigger] cv[j] == codec_view(codecs@[j]),
            forall|j: int|
                0 <= j < n ==> #[trigger] vitems[j] == crate::value::value_view(items@[j]),
            match spec_encode_input_elements(cv.skip(i as int), vitems.skip(i as int)) {
                Ok(rest) => spec_encode_input_elements(cv, vitems) matches Ok(all) && out@ + rest
                    == old(out)@ + all,
                Err(e) => spec_encode_input_elements(cv, vitems) == Err::<Seq<u8>, EncodeError>(e),
            },
        decreases n - i,
    {
        proof {
            assert(cv.skip(i as int)[0] == cv[i as int]);
            assert(cv.skip(i as int).drop_first() =~= cv.skip(i + 1));
            assert(vitems.skip(i as int)[0] == vitems[i as int]);
            assert(vitems.skip(i as int).drop_first() =~= vitems.skip(i + 1));
        }
        let ghost before = out@;
        let pos = crate::encode_composite::begin_length(out);
        match codecs[i].encode(out, &items[i]) {
            Ok(..) => {},
            Err(e) => {
                return Err(e);
            },
        }
        match crate::encode_composite::finish_length(out, pos) {
            Ok(..) => {},
            Err(e) => {
                return Err(e);
            },
        }
        proof {
            let payload = spec_encode_value(cv[i as int], vitems[i as int])->Ok_0;
            assert(out@ =~= before + spec_u32_be(payload.len() as u32) + payload);
        }
        i = i + 1;
    }
    proof {
        assert(cv.skip(n as int) =~= Seq::<CodecV>::empty());
        assert(out@ =~= old(out)@ + spec_encode_input_elements(cv, vitems)->Ok_0);
    }
    Ok(())
}

/// Encodes object fields: the null sentinel for an absent field.
fn encode_object_items(codecs: &Vec<Codec>, out: &mut Output, fields: &Vec<Option<Value>>) -> (r:
    Result<(), EncodeError>)
    requires
        codecs@.len() == fields@.len(),
    ensures
        match spec_encode_object_fields(
            codecs_view(codecs@),
            crate::value::opt_values_view(fields@),
        ) {
            Ok(bs) => r is Ok && final(out)@ == old(out)@ + bs,
            Err(e) => r == Err::<(), EncodeError>(e),
        },
    decreases codecs@, 7int,
{
    let ghost cv = codecs_view(codecs@);
    let ghost vfields = crate::value::opt_values_view(fields@);
    let n = codecs.len();
    let mut i: usize = 0;
    proof {
        lemma_codecs_view(codecs@);
        crate::value::lemma_opt_values_view(fields@);
        assert(cv.skip(0) =~= cv);
        assert(vfields.skip(0) =~= vfields);
    }
    while i < n
        invariant
            i <= n,
            n == codecs@.len() == fields@.len(),
            cv == codecs_view(codecs@),
            vfields == crate::value::opt_values_view(fields@),
            cv.len() == n && vfields.len() == n,
            forall|j: int| 0 <= j < n ==> #[trigger] cv[j] == codec_view(codecs@[j]),
            forall|j: int|
                0 <= j < n ==> #[trigger] vfields[j] == (match fields@[j] {
                    Some(v) => Some(crate::value::value_view(v)),
                    None => None,
                }),
            match spec_encode_object_fields(cv.skip(i as int), vfields.skip(i as int)) {
                Ok(rest) => spec_encode_object_fields(cv, vfields) matches Ok(all) && out@ + rest
                    == old(out)@ + all,
                Err(e) => spec_encode_object_fields(cv, vfields) == Err::<Seq<u8>, EncodeError>(e),
            },
        decreases n - i,
    {
        proof {
            assert(cv.skip(i as int)[0] == cv[i as int]);
            assert(cv.skip(i as int).drop_first() =~= cv.skip(i + 1));
            assert(vfields.skip(i as int)[0] == vfields[i as int]);
            assert(vfields.skip(i as int).drop_first() =~= vfields.skip(i + 1));
        }
        let ghost before = out@;
        match &fields[i] {
            None => {
                crate::encode_composite::write_null(out);
                proof {
                    assert(out@ =~= before + spec_null_element());
                }
            },
            Some(v) => {
                out.put_u32(0);
                let pos = crate::encode_composite::begin_length(out);
                match codecs[i].encode(out, v) {
                    Ok(..) => {},
                    Err(e) => {
                        return Err(e);
                    },
                }
                match crate::encode_composite::finish_length(out, pos) {
                    Ok(..) => {},
                    Err(e) => {
                        return Err(e);
                    },
                }
                proof {
                    let payload = spec_encode_value(cv[i as int], vfields[i as int]->Some_0)->Ok_0;
                    assert(out@ =~= before + spec_u32_be(0u32) + spec_u32_be(
                        payload.len() as u32,
                    ) + payload);
                }
            },
        }
        i = i + 1;
    }
    proof {
        assert(cv.skip(n as int) =~= Seq::<CodecV>::empty());
        assert(out@ =~= old(out)@ + spec_encode_object_fields(cv, vfields)->Ok_0);
    }
    Ok(())
}

/// Writes the array-like form of a container's items.
fn encode_array_like(el: &Codec, out: &mut Output, items: &Vec<Value>) -> (r: Result<
    (),
    EncodeError,
>)
    ensures
        match spec_encode_array_like(el@, crate::value::values_view(items@)) {
            Ok(bs) => r is Ok && final(out)@ == old(out)@ + bs,
            Err(e) => r == Err::<(), EncodeError>(e),
        },
    decreases *el, 8int,
{
    proof {
        crate::value::lemma_values_view(items@);
    }
    if items.len() == 0 {
        out.put_u32(0);
        out.put_u32(0);
        out.put_u32(0);
        proof {
            assert(final(out)@ =~= old(out)@ + spec_empty_array_like());
        }
        return Ok(());
    }
    if items.len() as u64 > 0xffff_ffffu64 {
        return Err(EncodeError::ArrayTooLong);
    }
    out.put_u32(1);
    out.put_u32(0);
    out.put_u32(0);
    out.put_u32(items.len() as u32);
    out.put_u32(1);
    let ghost with_header = out@;
    let r = encode_array_items(el, out, items);
    match r {
        Ok(..) => {
            proof {
                let body = spec_encode_array_elements(
                    el@,
                    crate::value::values_view(items@),
                )->Ok_0;
                assert(out@ =~= old(out)@ + (spec_array_like_header(items@.len() as u32) + body));
            }
            Ok(())
        },
        Err(e) => Err(e),
    }
}

impl Codec {
    /// Encodes one value, appending its wire bytes to the output buffer. On
    /// an error nothing is promised of the buffer: the caller discards it.
    pub fn encode(&self, output: &mut Output, val: &Value) -> (r: Result<(), EncodeError>)
        ensures
            match spec_encode_value(self@, val@) {
                Ok(bs) => r is Ok && final(output)@ == old(output)@ + bs,
                Err(e) => r == Err::<(), EncodeError>(e),
            },
        decreases *self, 0int,
    {
        match self {
            Codec::Nothing => match val {
                Value::Nothing => {
                    proof {
                        assert(final(output)@ =~= old(output)@ + Seq::<u8>::empty());
                    }
                    Ok(())
                },
                _ => Err(EncodeError::InvalidValue),
            },
            Codec::Uuid => match val {
                Value::Uuid(u) => {
                    output.put_u128(u.to_u128());
                    Ok(())
                },
                _ => Err(EncodeError::InvalidValue),
            },
            Codec::Str => match val {
                Value::Str(s) => {
                    crate::scalars::encode_str(output, s.as_str());
                    Ok(())
                },
                _ => Err(EncodeError::InvalidValue),
            },
            Codec::Bytes => match val {
                Value::Bytes(b) => {
                    output.extend(b.as_slice());
                    Ok(())
                },
                _ => Err(EncodeError::InvalidValue),
            },
            Codec::Int16 => match val {
                Value::Int16(x) => {
                    output.put_i16(*x);
                    Ok(())
                },
                _ => Err(EncodeError::InvalidValue),
            },
            Codec::Int32 => match val {
                Value::Int32(x) => {
                    output.put_i32(*x);
                    Ok(())
                },
                _ => Err(EncodeError::InvalidValue),
            },
            Codec::Int64 => match val {
                Value::Int64(x) => {
                    output.put_i64(*x);
                    Ok(())
                },
                _ => Err(EncodeError::InvalidValue),
            },
            Codec::Float32 => match val {
                Value::Float32(bits) => {
                    output.put_u32(*bits);
                    Ok(())
                },
                _ => Err(EncodeError::InvalidValue),
            },
            Codec::Float64 => match val {
                Value::Float64(bits) => {
                    output.put_u64(*bits);
                    Ok(())
                },
                _ => Err(EncodeError::InvalidValue),
            },
            Codec::BigInt => match val {
                Value::BigInt(b) => crate::scalars::encode_bigint(output, b),
                _ => Err(EncodeError::InvalidValue),
            },
            Codec::Decimal => match val {
                Value::Decimal(d) => crate::scalars::encode_decimal(output, d),
                _ => Err(EncodeError::InvalidValue),
            },
            Codec::Bool => match val {
                Value::Bool(b) => {
                    crate::scalars::encode_bool(output, *b);
                    Ok(())
                },
                _ => Err(EncodeError::InvalidValue),
            },
            Codec::Datetime => match val {
                Value::Datetime(d) => {
                    output.put_i64(d.to_micros());
                    Ok(())
                },
                _ => Err(EncodeError::InvalidValue),
            },
            Codec::LocalDatetime => match val {
                Value::LocalDatetime(d) => {
                    output.put_i64(d.to_micros());
                    Ok(())
                },
                _ => Err(EncodeError::InvalidValue),
            },
            Codec::LocalDate => match val {
                Value::LocalDate(d) => {
                    output.put_i32(d.to_days());
                    Ok(())
                },
                _ => Err(EncodeError::InvalidValue),
            },
            Codec::LocalTime => match val {
                Value::LocalTime(t) => {
                    output.put_i64(#[verifier::truncate] (t.to_micros() as i64));
                    Ok(())
                },
                _ => Err(EncodeError::InvalidValue),
            },
            Codec::Duration => match val {
                Value::Duration(d) => {
                    crate::scalars::encode_duration(output, d);
                    Ok(())
                },
                _ => Err(EncodeError::InvalidValue),
            },
            Codec::Json => match val {
                Value::Json(s) => {
                    crate::scalars::encode_json_text(output, s.as_str());
                    Ok(())
                },
                _ => Err(EncodeError::InvalidValue),
            },
            Codec::Scalar(inner) => inner.encode(output, val),
            Codec::Enum(members) => match val {
                Value::Enum(e) => {
                    let ghost mview = Seq::new(members@.len(), |i: int| members@[i]@);
                    match find_member(members, &e.0) {
                        Some(i) => {
                            proof {
                                assert(mview[i as int] == e.0@);
                                assert(mview.contains(e@));
                            }
                            crate::scalars::encode_str(output, e.0.as_str());
                            Ok(())
                        },
                        None => {
                            proof {
                                assert(forall|j: int|
                                    0 <= j < mview.len() ==> mview[j] != e.0@);
                                assert(!mview.contains(e@));
                            }
                            Err(EncodeError::MissingEnumValue)
                        },
                    }
                },
                _ => Err(EncodeError::InvalidValue),
            },
            Codec::SetOf(el) => match val {
                Value::SetOf(items) => encode_array_like(el, output, items),
                _ => Err(EncodeError::InvalidValue),
            },
            Codec::Array(el) => match val {
                Value::Array(items) => encode_array_like(el, output, items),
                _ => Err(EncodeError::InvalidValue),
            },
            Codec::Tuple(cs) => match val {
                Value::Tuple(items) => {
                    proof {
                        lemma_codecs_view(cs@);
                        crate::value::lemma_values_view(items@);
                    }
                    if cs.len() != items.len() {
                        return Err(EncodeError::TupleShapeMismatch);
                    }
                    if cs.len() as u64 > 0xffff_ffffu64 {
                        return Err(EncodeError::TooManyElements);
                    }
                    out_header_and_tuple(cs, output, items)
                },
                _ => Err(EncodeError::InvalidValue),
            },
            Codec::InputTuple(cs) => match val {
                Value::Tuple(items) => {
                    proof {
                        lemma_codecs_view(cs@);
                        crate::value::lemma_values_view(items@);
                    }
                    if cs.len() != items.len() {
                        return Err(EncodeError::TupleShapeMismatch);
                    }
                    if cs.len() as u64 > 0xffff_ffffu64 {
                        return Err(EncodeError::TooManyElements);
                    }
                    out_header_and_input(cs, output, items)
                },
                _ => Err(EncodeError::InvalidValue),
            },
            Codec::NamedTuple { shape, codecs } => match val {
                Value::NamedTuple { shape: vshape, fields } => {
                    proof {
                        lemma_codecs_view(codecs@);
                        crate::value::lemma_values_view(fields@);
                    }
                    if !shape.same_shape(vshape) {
                        return Err(EncodeError::TupleShapeMismatch);
                    }
                    if codecs.len() != fields.len() {
                        return Err(EncodeError::ObjectShapeMismatch);
                    }
                    if codecs.len() as u64 > 0xffff_ffffu64 {
                        return Err(EncodeError::TooManyElements);
                    }
                    out_header_and_tuple(codecs, output, fields)
                },
                _ => Err(EncodeError::InvalidValue),
            },
            Codec::InputNamedTuple { shape, codecs } => match val {
                Value::NamedTuple { shape: vshape, fields } => {
                    proof {
                        lemma_codecs_view(codecs@);
                        crate::value::lemma_values_view(fields@);
                    }
                    if !shape.same_shape(vshape) {
                        return Err(EncodeError::TupleShapeMismatch);
                    }
                    if codecs.len() != fields.len() {
                        return Err(EncodeError::ObjectShapeMismatch);
                    }
                    if codecs.len() as u64 > 0xffff_ffffu64 {
                        return Err(EncodeError::TooManyElements);
                    }
                    out_header_and_input(codecs, output, fields)
                },
                _ => Err(EncodeError::InvalidValue),
            },
            Codec::Object { shape, codecs } => match val {
                Value::Object { shape: vshape, fields } => {
                    proof {
                        lemma_codecs_view(codecs@);
                        crate::value::lemma_opt_values_view(fields@);
                    }
                    if !shape.same_shape(vshape) {
                        return Err(EncodeError::ObjectShapeMismatch);
                    }
                    if codecs.len() != fields.len() {
                        return Err(EncodeError::ObjectShapeMismatch);
                    }
                    if codecs.len() as u64 > 0xffff_ffffu64 {
                        return Err(EncodeError::TooManyElements);
                    }
                    let count = codecs.len() as u32;
                    output.put_u32(count);
                    let ghost with_header = output@;
                    match encode_object_items(codecs, output, fields) {
                        Ok(..) => {
                            proof {
                                let body = spec_encode_object_fields(
                                    codecs_view(codecs@),
                                    crate::value::opt_values_view(fields@),
                                )->Ok_0;
                                assert(output@ =~= old(output)@ + (spec_u32_be(count) + body));
                            }
                            Ok(())
                        },
                        Err(e) => Err(e),
                    }
                },
                _ => Err(EncodeError::InvalidValue),
            },
        }
    }
}

/// Writes the count header, then the elements in server-to-client framing.
fn out_header_and_tuple(codecs: &Vec<Codec>, output: &mut Output, items: &Vec<Value>) -> (r: Result<
    (),
    EncodeError,
>)
    requires
        codecs@.len() == items@.len(),
        codecs@.len() <= 0xffff_ffff,
    ensures
        match spec_encode_tuple_elements(codecs_view(codecs@), crate::value::values_view(items@)) {
            Ok(body) => r is Ok && final(output)@ == old(output)@ + (spec_u32_be(
                codecs@.len() as u32,
            ) + body),
            Err(e) => r == Err::<(), EncodeError>(e),
        },
    decreases codecs@, 8int,
{
    let count = codecs.len() as u32;
    output.put_u32(count);
    match encode_tuple_items(codecs, output, items) {
        Ok(..) => {
            proof {
                let body = spec_encode_tuple_elements(
                    codecs_view(codecs@),
                    crate::value::values_view(items@),
                )->Ok_0;
                assert(output@ =~= old(output)@ + (spec_u32_be(count) + body));
            }
            Ok(())
        },
        Err(e) => Err(e),
    }
}

/// Writes the count header, then the elements in client-to-server framing.
fn out_header_and_input(codecs: &Vec<Codec>, output: &mut Output, items: &Vec<Value>) -> (r: Result<
    (),
    EncodeError,
>)
    requires
        codecs@.len() == items@.len(),
        codecs@.len() <= 0xffff_ffff,
    ensures
        match spec_encode_input_elements(codecs_view(codecs@), crate::value::values_view(items@)) {
            Ok(body) => r is Ok && final(output)@ == old(output)@ + (spec_u32_be(
                codecs@.len() as u32,
            ) + body),
            Err(e) => r == Err::<(), EncodeError>(e),
        },
    decreases codecs@, 8int,
{
    let count = codecs.len() as u32;
    output.put_u32(count);
    match encode_input_items(codecs, output, items) {
        Ok(..) => {
            proof {
                let body = spec_encode_input_elements(
                    codecs_view(codecs@),
                    crate::value::values_view(items@),
                )->Ok_0;
                assert(output@ =~= old(output)@ + (spec_u32_be(count) + body));
            }
            Ok(())
        },
        Err(e) => Err(e),
    }
}

/// An empty container is its 12-byte zero header; a non-empty one is the
/// dimensioned header and the framed elements.
pub open spec fn spec_encode_array_like(el: CodecV, items: Seq<ValueV>) -> Result<
    Seq<u8>,
    EncodeError,
>
    decreases el, items.len() + 2,
{
    if items.len() == 0 {
        Ok(spec_empty_array_like())
    } else if items.len() > 0xffff_ffff {
        Err(EncodeError::ArrayTooLong)
    } else {
        match spec_encode_array_elements(el, items) {
            Err(e) => Err(e),
            Ok(body) => Ok(spec_array_like_header(items.len() as u32) + body),
        }
    }
}

// ---------------------------------------------------------------------------
// Building a codec tree from the descriptor catalog. Each position on the
// current build path is marked, so a descriptor that reaches itself is
// rejected rather than recursed into without bound.
// ---------------------------------------------------------------------------
/// The two framing directions a codec tree can be compiled for: tuples and
/// named tuples carry a reserved word per element in server-to-client
/// (output) framing and omit it in client-to-server (input) framing.
#[derive(Clone, Copy, Debug, PartialEq, Eq, Structural)]
pub enum BuildMode {
    Output,
    Input,
}

/// How many positions are still unmarked: the builder's termination measure.
pub open spec fn count_false(s: Seq<bool>) -> nat
    decreases s,
{
    if s.len() == 0 {
        0
    } else {
        (if s[0] {
            0nat
        } else {
            1nat
        }) + count_false(s.drop_first())
    }
}

/// Marking an unmarked position strictly shrinks the measure.
pub proof fn lemma_count_false_update(s: Seq<bool>, i: int)
    requires
        0 <= i < s.len(),
        !s[i],
    ensures
        count_false(s.update(i, true)) < count_false(s),
    decreases s,
{
    let u = s.update(i, true);
    if i == 0 {
        assert(u.drop_first() =~= s.drop_first());
    } else {
        lemma_count_false_update(s.drop_first(), i - 1);
        assert(u.drop_first() =~= s.drop_first().update(i - 1, true));
        assert(u[0] == s[0]);
    }
}

/// The codec of one base-scalar type id.
pub open spec fn spec_scalar_codec(id: u128) -> Result<CodecV, CodecError> {
    if id == crate::type_ids::STD_UUID {
        Ok(CodecV::Uuid)
    } else if id == crate::type_ids::STD_STR {
        Ok(CodecV::Str)
    } else if id == crate::type_ids::STD_BYTES {
        Ok(CodecV::Bytes)
    } else if id == crate::type_ids::STD_INT16 {
        Ok(CodecV::Int16)
    } else if id == crate::type_ids::STD_INT32 {
        Ok(CodecV::Int32)
    } else if id == crate::type_ids::STD_INT64 {
        Ok(CodecV::Int64)
    } else if id == crate::type_ids::STD_FLOAT32 {
        Ok(CodecV::Float32)
    } else if id == crate::type_ids::STD_FLOAT64 {
        Ok(CodecV::Float64)
    } else if id == crate::type_ids::STD_DECIMAL {
        Ok(CodecV::Decimal)
    } else if id == crate::type_ids::STD_BOOL {
        Ok(CodecV::Bool)
    } else if id == crate::type_ids::STD_DATETIME {
        Ok(CodecV::Datetime)
    } else if id == crate::type_ids::CAL_LOCAL_DATETIME {
        Ok(CodecV::LocalDatetime)
    } else if id == crate::type_ids::CAL_LOCAL_DATE {
        Ok(CodecV::LocalDate)
    } else if id == crate::type_ids::CAL_LOCAL_TIME {
        Ok(CodecV::LocalTime)
    } else if id == crate::type_ids::STD_DURATION {
        Ok(CodecV::Duration)
    } else if id == crate::type_ids::STD_JSON {
        Ok(CodecV::Json)
    } else if id == crate::type_ids::STD_BIGINT {
        Ok(CodecV::BigInt)
    } else {
        Err(CodecError::UndefinedBaseScalar { uuid: id })
    }
}

/// The scalar leaf codec for a base-scalar type id, or the undefined-scalar
/// error.
pub fn scalar_codec(uuid: &crate::model::Uuid) -> (r: Result<Codec, CodecError>)
    ensures
        match spec_scalar_codec(uuid.0) {
            Ok(cv) => r matches Ok(c) && c@ == cv,
            Err(e) => r == Err::<Codec, CodecError>(e),
        },
{
    let id = uuid.0;
    if id == crate::type_ids::STD_UUID {
        Ok(Codec::Uuid)
    } else if id == crate::type_ids::STD_STR {
        Ok(Codec::Str)
    } else if id == crate::type_ids::STD_BYTES {
        Ok(Codec::Bytes)
    } else if id == crate::type_ids::STD_INT16 {
        Ok(Codec::Int16)
    } else if id == crate::type_ids::STD_INT32 {
        Ok(Codec::Int32)
    } else if id == crate::type_ids::STD_INT64 {
        Ok(Codec::Int64)
    } else if id == crate::type_ids::STD_FLOAT32 {
        Ok(Codec::Float32)
    } else if id == crate::type_ids::STD_FLOAT64 {
        Ok(Codec::Float64)
    } else if id == crate::type_ids::STD_DECIMAL {
        Ok(Codec::Decimal)
    } else if id == crate::type_ids::STD_BOOL {
        Ok(Codec::Bool)
    } else if id == crate::type_ids::STD_DATETIME {
        Ok(Codec::Datetime)
    } else if id == crate::type_ids::CAL_LOCAL_DATETIME {
        Ok(Codec::LocalDatetime)
    } else if id == crate::type_ids::CAL_LOCAL_DATE {
        Ok(Codec::LocalDate)
    } else if id == crate::type_ids::CAL_LOCAL_TIME {
        Ok(Codec::LocalTime)
    } else if id == crate::type_ids::STD_DURATION {
        Ok(Codec::Duration)
    } else if id == crate::type_ids::STD_JSON {
        Ok(Codec::Json)
    } else if id == crate::type_ids::STD_BIGINT {
        Ok(Codec::BigInt)
    } else {
        Err(CodecError::UndefinedBaseScalar { uuid: id })
    }
}

/// The element positions a composite descriptor refers to.
pub open spec fn spec_shape_positions(elements: Seq<crate::descriptors::ShapeElement>) -> Seq<
    TypePos,
> {
    Seq::new(elements.len(), |i: int| elements[i].type_pos)
}

pub open spec fn spec_named_positions(elements: Seq<crate::descriptors::TupleElement>) -> Seq<
    TypePos,
> {
    Seq::new(elements.len(), |i: int| elements[i].type_pos)
}

/// The object shape a shape descriptor declares.
pub open spec fn spec_shape_view(elements: Seq<crate::descriptors::ShapeElement>) -> Seq<
    ShapeElementV,
> {
    Seq::new(
        elements.len(),
        |i: int|
            ShapeElementV {
                flag_implicit: elements[i].flag_implicit,
                flag_link_property: elements[i].flag_link_property,
                flag_link: elements[i].flag_link,
                name: elements[i].name@,
            },
    )
}

/// The named-tuple shape a named-tuple descriptor declares.
pub open spec fn spec_named_shape_view(elements: Seq<crate::descriptors::TupleElement>) -> Seq<
    Seq<char>,
> {
    Seq::new(elements.len(), |i: int| elements[i].name@)
}

/// What codec a descriptor table entry builds, with the positions on the
/// current path marked in `visiting`.
pub open spec fn spec_build(
    descs: Seq<Descriptor>,
    pos: TypePos,
    mode: BuildMode,
    visiting: Seq<bool>,
) -> Result<CodecV, CodecError>
    recommends
        visiting.len() == descs.len(),
    decreases count_false(visiting), 0int,
    via spec_build_decreases
{
    let p = pos.0 as int;
    if p >= descs.len() || p >= visiting.len() {
        Err(CodecError::UnexpectedTypePos { position: pos.0 })
    } else if visiting[p] {
        Err(CodecError::RecursiveDescriptor { position: pos.0 })
    } else {
        let marked = visiting.update(p, true);
        match descs[p] {
            Descriptor::BaseScalar(b) => spec_scalar_codec(b.id.0),
            Descriptor::Scalar(d) => match spec_build(descs, d.base_type_pos, mode, marked) {
                Ok(inner) => Ok(CodecV::Scalar(Box::new(inner))),
                Err(e) => Err(e),
            },
            Descriptor::SetOf(d) => match spec_build(descs, d.type_pos, mode, marked) {
                Ok(el) => Ok(CodecV::SetOf(Box::new(el))),
                Err(e) => Err(e),
            },
            Descriptor::Array(d) => match spec_build(descs, d.type_pos, mode, marked) {
                Ok(el) => Ok(CodecV::Array(Box::new(el))),
                Err(e) => Err(e),
            },
            Descriptor::Tuple(d) => match spec_build_list(
                descs,
                d.element_types@,
                mode,
                marked,
            ) {
                Ok(cs) => Ok(
                    match mode {
                        BuildMode::Input => CodecV::InputTuple(cs),
                        BuildMode::Output => CodecV::Tuple(cs),
                    },
                ),
                Err(e) => Err(e),
            },
            Descriptor::NamedTuple(d) => match spec_build_list(
                descs,
                spec_named_positions(d.elements@),
                mode,
                marked,
            ) {
                Ok(cs) => Ok(
                    match mode {
                        BuildMode::Input => CodecV::InputNamedTuple {
                            shape: spec_named_shape_view(d.elements@),
                            codecs: cs,
                        },
                        BuildMode::Output => CodecV::NamedTuple {
                            shape: spec_named_shape_view(d.elements@),
                            codecs: cs,
                        },
                    },
                ),
                Err(e) => Err(e),
            },
            Descriptor::ObjectShape(d) => match spec_build_list(
                descs,
                spec_shape_positions(d.elements@),
                mode,
                marked,
            ) {
                Ok(cs) => Ok(CodecV::Object { shape: spec_shape_view(d.elements@), codecs: cs }),
                Err(e) => Err(e),
            },
            Descriptor::Enumeration(d) => Ok(
                CodecV::Enum(Seq::new(d.members@.len(), |i: int| d.members@[i]@)),
            ),
            Descriptor::TypeAnnotation(..) => Err(
                CodecError::UnexpectedAnnotation { position: pos.0 },
            ),
        }
    }
}

#[via_fn]
proof fn spec_build_decreases(
    descs: Seq<Descriptor>,
    pos: TypePos,
    mode: BuildMode,
    visiting: Seq<bool>,
) {
    let p = pos.0 as int;
    if 0 <= p < descs.len() && p < visiting.len() && !visiting[p] {
        lemma_count_false_update(visiting, p);
    }
}

/// The codecs of a list of element positions, built in order; the first
/// error wins.
pub open spec fn spec_build_list(
    descs: Seq<Descriptor>,
    positions: Seq<TypePos>,
    mode: BuildMode,
    visiting: Seq<bool>,
) -> Result<Seq<CodecV>, CodecError>
    decreases count_false(visiting), positions.len() + 1,
{
    if positions.len() == 0 {
        Ok(Seq::empty())
    } else {
        match spec_build(descs, positions[0], mode, visiting) {
            Err(e) => Err(e),
            Ok(c) => match spec_build_list(descs, positions.drop_first(), mode, visiting) {
                Err(e) => Err(e),
                Ok(rest) => Ok(seq![c] + rest),
            },
        }
    }
}

/// What codec the whole table builds for a root position: no position is
/// marked at the start.
pub open spec fn spec_build_codec(
    descs: Seq<Descriptor>,
    pos: TypePos,
    mode: BuildMode,
) -> Result<CodecV, CodecError> {
    spec_build(descs, pos, mode, Seq::new(descs.len(), |i: int| false))
}

/// A table position referenced out of bounds fails the build with the
/// invalid-position classification, whatever else the table holds.
pub proof fn lemma_build_out_of_bounds(descs: Seq<Descriptor>, pos: TypePos, mode: BuildMode)
    requires
        pos.0 >= descs.len(),
    ensures
        spec_build_codec(descs, pos, mode) == Err::<CodecV, CodecError>(
            CodecError::UnexpectedTypePos { position: pos.0 },
        ),
{
}

struct CodecBuilder<'a> {
    mode: BuildMode,
    descriptors: &'a [Descriptor],
}

impl<'a> CodecBuilder<'a> {
    fn build(&self, pos: TypePos, visiting: &mut Vec<bool>) -> (r: Result<Codec, CodecError>)
        requires
            old(visiting)@.len() == self.descriptors@.len(),
        ensures
            final(visiting)@ == old(visiting)@,
            match spec_build(self.descriptors@, pos, self.mode, old(visiting)@) {
                Ok(cv) => r matches Ok(c) && c@ == cv,
                Err(e) => r == Err::<Codec, CodecError>(e),
            },
        decreases count_false(visiting@), 0int,
    {
        let p = pos.0 as usize;
        if p >= self.descriptors.len() {
            return Err(CodecError::UnexpectedTypePos { position: pos.0 });
        }
        if visiting[p] {
            return Err(CodecError::RecursiveDescriptor { position: pos.0 });
        }
        proof {
            lemma_count_false_update(visiting@, p as int);
        }
        visiting[p] = true;
        let ghost marked = visiting@;
        let result = match &self.descriptors[p] {
            Descriptor::BaseScalar(b) => scalar_codec(&b.id),
            Descriptor::Scalar(d) => match self.build(d.base_type_pos, visiting) {
                Ok(inner) => Ok(Codec::Scalar(Box::new(inner))),
                Err(e) => Err(e),
            },
            Descriptor::SetOf(d) => match self.build(d.type_pos, visiting) {
                Ok(el) => Ok(Codec::SetOf(Box::new(el))),
                Err(e) => Err(e),
            },
            Descriptor::Array(d) => match self.build(d.type_pos, visiting) {
                Ok(el) => Ok(Codec::Array(Box::new(el))),
                Err(e) => Err(e),
            },
            Descriptor::Tuple(d) => match self.build_list(&d.element_types, visiting) {
                Ok(cs) => Ok(
                    match self.mode {
                        BuildMode::Input => Codec::InputTuple(cs),
                        BuildMode::Output => Codec::Tuple(cs),
                    },
                ),
                Err(e) => Err(e),
            },
            Descriptor::NamedTuple(d) => {
                let positions = named_positions(&d.elements);
                match self.build_list(&positions, visiting) {
                    Ok(cs) => {
                        let shape = named_shape(&d.elements);
                        proof {
                            assert(shape@ =~= spec_named_shape_view(d.elements@));
                        }
                        Ok(
                            match self.mode {
                                BuildMode::Input => Codec::InputNamedTuple { shape, codecs: cs },
                                BuildMode::Output => Codec::NamedTuple { shape, codecs: cs },
                            },
                        )
                    },
                    Err(e) => Err(e),
                }
            },
            Descriptor::ObjectShape(d) => {
                let positions = shape_positions(&d.elements);
                match self.build_list(&positions, visiting) {
                    Ok(cs) => {
                        let shape = object_shape(&d.elements);
                        proof {
                            assert(shape@ =~= spec_shape_view(d.elements@));
                        }
                        Ok(Codec::Object { shape, codecs: cs })
                    },
                    Err(e) => Err(e),
                }
            },
            Descriptor::Enumeration(d) => {
                let members = clone_members(&d.members);
                proof {
                    assert(Seq::new(members@.len(), |i: int| members@[i]@) =~= Seq::new(
                        d.members@.len(),
                        |i: int| d.members@[i]@,
                    ));
                }
                Ok(Codec::Enum(members))
            },
            Descriptor::TypeAnnotation(..) => Err(
                CodecError::UnexpectedAnnotation { position: pos.0 },
            ),
        };
        visiting[p] = false;
        proof {
            assert(visiting@ =~= old(visiting)@);
        }
        result
    }

    fn build_list(&self, positions: &Vec<TypePos>, visiting: &mut Vec<bool>) -> (r: Result<
        Vec<Codec>,
        CodecError,
    >)
        requires
            old(visiting)@.len() == self.descriptors@.len(),
        ensures
            final(visiting)@ == old(visiting)@,
            match spec_build_list(self.descriptors@, positions@, self.mode, old(visiting)@) {
                Ok(cvs) => r matches Ok(cs) && codecs_view(cs@) == cvs,
                Err(e) => r == Err::<Vec<Codec>, CodecError>(e),
            },
        decreases count_false(visiting@), positions@.len(),
    {
        let ghost vis0 = visiting@;
        let n = positions.len();
        let mut out: Vec<Codec> = Vec::new();
        let mut i: usize = 0;
        proof {
            assert(positions@.skip(0) =~= positions@);
        }
        #[verifier::loop_isolation(false)]
        while i < n
            invariant
                i <= n,
                visiting@ == vis0,
                match spec_build_list(self.descriptors@, positions@.skip(i as int), self.mode, vis0) {
                    Ok(rest) => spec_build_list(self.descriptors@, positions@, self.mode, vis0)
                        == Ok::<Seq<CodecV>, CodecError>(codecs_view(out@) + rest),
                    Err(e) => spec_build_list(self.descriptors@, positions@, self.mode, vis0)
                        == Err::<Seq<CodecV>, CodecError>(e),
                },
            decreases n - i,
        {
            proof {
                assert(positions@.skip(i as int)[0] == positions@[i as int]);
                assert(positions@.skip(i as int).drop_first() =~= positions@.skip(i + 1));
            }
            let c = match self.build(positions[i], visiting) {
                Ok(c) => c,
                Err(e) => {
                    return Err(e);
                },
            };
            proof {
                lemma_codecs_view_push(out@, c);
                match spec_build_list(
                    self.descriptors@,
                    positions@.skip(i + 1),
                    self.mode,
                    vis0,
                ) {
                    Ok(rest) => {
                        assert(codecs_view(out@) + (seq![codec_view(c)] + rest) =~= codecs_view(
                            out@.push(c),
                        ) + rest);
                    },
                    Err(e) => {},
                }
            }
            out.push(c);
            i = i + 1;
        }
        proof {
            assert(positions@.skip(n as int) =~= Seq::<TypePos>::empty());
            assert(codecs_view(out@) + Seq::<CodecV>::empty() =~= codecs_view(out@));
        }
        Ok(out)
    }
}

/// Appending one codec appends its view.
pub proof fn lemma_codecs_view_push(s: Seq<Codec>, c: Codec)
    ensures
        codecs_view(s.push(c)) == codecs_view(s).push(codec_view(c)),
{
    lemma_codecs_view(s);
    lemma_codecs_view(s.push(c));
    assert forall|i: int| 0 <= i < s.len() + 1 implies codecs_view(s.push(c))[i] == codecs_view(
        s,
    ).push(codec_view(c))[i] by {
        if i < s.len() {
            assert(s.push(c)[i] == s[i]);
        } else {
            assert(s.push(c)[i] == c);
        }
    }
    assert(codecs_view(s.push(c)) =~= codecs_view(s).push(codec_view(c)));
}

/// Copies the element positions of a named-tuple descriptor.
fn named_positions(elements: &Vec<crate::descriptors::TupleElement>) -> (r: Vec<TypePos>)
    ensures
        r@ == spec_named_positions(elements@),
{
    let mut out: Vec<TypePos> = Vec::new();
    let n = elements.len();
    let mut i: usize = 0;
    while i < n
        invariant
            i <= n,
            n == elements@.len(),
            out@ =~= spec_named_positions(elements@).take(i as int),
        decreases n - i,
    {
        out.push(elements[i].type_pos);
        i = i + 1;
        proof {
            assert(out@ =~= spec_named_positions(elements@).take(i as int));
        }
    }
    proof {
        assert(out@ =~= spec_named_positions(elements@));
    }
    out
}

/// Copies the element positions of an object-shape descriptor.
fn shape_positions(elements: &Vec<crate::descriptors::ShapeElement>) -> (r: Vec<TypePos>)
    ensures
        r@ == spec_shape_positions(elements@),
{
    let mut out: Vec<TypePos> = Vec::new();
    let n = elements.len();
    let mut i: usize = 0;
    while i < n
        invariant
            i <= n,
            n == elements@.len(),
            out@ =~= spec_shape_positions(elements@).take(i as int),
        decreases n - i,
    {
        out.push(elements[i].type_pos);
        i = i + 1;
        proof {
            assert(out@ =~= spec_shape_positions(elements@).take(i as int));
        }
    }
    proof {
        assert(out@ =~= spec_shape_positions(elements@));
    }
    out
}

/// Builds the shared named-tuple shape a descriptor declares.
fn named_shape(elements: &Vec<crate::descriptors::TupleElement>) -> (r: NamedTupleShape)
    ensures
        r@ == spec_named_shape_view(elements@),
{
    let mut out: Vec<crate::value::TupleElement> = Vec::new();
    let n = elements.len();
    let mut i: usize = 0;
    while i < n
        invariant
            i <= n,
            n == elements@.len(),
            out@.len() == i,
            forall|j: int| 0 <= j < i ==> #[trigger] out@[j].name@ == elements@[j].name@,
        decreases n - i,
    {
        out.push(crate::value::TupleElement { name: elements[i].name.clone() });
        i = i + 1;
    }
    let shape = NamedTupleShape::new(out);
    proof {
        assert(shape@ =~= spec_named_shape_view(elements@));
    }
    shape
}

/// Builds the shared object shape a descriptor declares.
fn object_shape(elements: &Vec<crate::descriptors::ShapeElement>) -> (r: ObjectShape)
    ensures
        r@ == spec_shape_view(elements@),
{
    let mut out: Vec<crate::value::ShapeElement> = Vec::new();
    let n = elements.len();
    let mut i: usize = 0;
    while i < n
        invariant
            i <= n,
            n == elements@.len(),
            out@.len() == i,
            forall|j: int|
                0 <= j < i ==> (#[trigger] out@[j])@ == (ShapeElementV {
                    flag_implicit: elements@[j].flag_implicit,
                    flag_link_property: elements@[j].flag_link_property,
                    flag_link: elements@[j].flag_link,
                    name: elements@[j].name@,
                }),
        decreases n - i,
    {
        let e = &elements[i];
        out.push(
            crate::value::ShapeElement {
                flag_implicit: e.flag_implicit,
                flag_link_property: e.flag_link_property,
                flag_link: e.flag_link,
                name: e.name.clone(),
            },
        );
        i = i + 1;
    }
    let shape = ObjectShape::new(out);
    proof {
        assert(shape@ =~= spec_shape_view(elements@));
    }
    shape
}

/// Copies the member strings of an enumeration descriptor.
fn clone_members(members: &Vec<String>) -> (r: Vec<String>)
    ensures
        r@.len() == members@.len(),
        forall|i: int| 0 <= i < members@.len() ==> #[trigger] r@[i]@ == members@[i]@,
{
    let mut out: Vec<String> = Vec::new();
    let n = members.len();
    let mut i: usize = 0;
    while i < n
        invariant
            i <= n,
            n == members@.len(),
            out@.len() == i,
            forall|j: int| 0 <= j < i ==> #[trigger] out@[j]@ == members@[j]@,
        decreases n - i,
    {
        out.push(members[i].clone());
        i = i + 1;
    }
    out
}

/// Compiles the descriptor at `root_pos` into a server-to-client codec; with
/// no root, the result is the Nothing codec.
pub fn build_codec(root_pos: Option<TypePos>, descriptors: &[Descriptor]) -> (r: Result<
    Codec,
    CodecError,
>)
    ensures
        match root_pos {
            None => r matches Ok(c) && c@ == CodecV::Nothing,
            Some(p) => match spec_build_codec(descriptors@, p, BuildMode::Output) {
                Ok(cv) => r matches Ok(c) && c@ == cv,
                Err(e) => r == Err::<Codec, CodecError>(e),
            },
        },
{
    let builder = CodecBuilder { mode: BuildMode::Output, descriptors };
    match root_pos {
        Some(pos) => {
            let mut visiting: Vec<bool> = make_visiting(descriptors.len());
            builder.build(pos, &mut visiting)
        },
        None => Ok(Codec::Nothing),
    }
}

/// Compiles the descriptor at `root_pos` into a client-to-server codec; with
/// no root, the result is the Nothing codec.
pub fn build_input_codec(root_pos: Option<TypePos>, descriptors: &[Descriptor]) -> (r: Result<
    Codec,
    CodecError,
>)
    ensures
        match root_pos {
            None => r matches Ok(c) && c@ == CodecV::Nothing,
            Some(p) => match spec_build_codec(descriptors@, p, BuildMode::Input) {
                Ok(cv) => r matches Ok(c) && c@ == cv,
                Err(e) => r == Err::<Codec, CodecError>(e),
            },
        },
{
    let builder = CodecBuilder { mode: BuildMode::Input, descriptors };
    match root_pos {
        Some(pos) => {
            let mut visiting: Vec<bool> = make_visiting(descriptors.len());
            builder.build(pos, &mut visiting)
        },
        None => Ok(Codec::Nothing),
    }
}

/// A fresh all-unmarked visiting vector.
fn make_visiting(n: usize) -> (r: Vec<bool>)
    ensures
        r@ =~= Seq::new(n as nat, |i: int| false),
{
    let mut out: Vec<bool> = Vec::new();
    let mut i: usize = 0;
    while i < n
        invariant
            i <= n,
            out@ =~= Seq::new(i as nat, |j: int| false),
        decreases n - i,
    {
        out.push(false);
        i = i + 1;
        proof {
            assert(out@ =~= Seq::new(i as nat, |j: int| false));
        }
    }
    out
}

// ---------------------------------------------------------------------------
// Container layout laws.
// ---------------------------------------------------------------------------
/// An empty array or set encodes as exactly twelve zero bytes: a zero
/// dimension count and two zero reserved words.
pub proof fn lemma_empty_array_like_encoding(el: CodecV)
    ensures
        spec_encode_value(CodecV::Array(Box::new(el)), ValueV::Array(Seq::empty())) == Ok::<
            Seq<u8>,
            EncodeError,
        >(spec_empty_array_like()),
        spec_encode_value(CodecV::SetOf(Box::new(el)), ValueV::SetOf(Seq::empty())) == Ok::<
            Seq<u8>,
            EncodeError,
        >(spec_empty_array_like()),
        spec_empty_array_like().len() == 12,
        forall|i: int| 0 <= i < 12 ==> #[trigger] spec_empty_array_like()[i] == 0u8,
{
    assert((0u32 >> 24) & 0xff == 0 && (0u32 >> 16) & 0xff == 0 && (0u32 >> 8) & 0xff == 0 && 0u32
        & 0xff == 0) by (bit_vector);
    assert(spec_empty_array_like() =~= Seq::new(12, |i: int| 0u8));
    assert(spec_encode_array_like(el, Seq::<ValueV>::empty()) == Ok::<Seq<u8>, EncodeError>(
        spec_empty_array_like(),
    ));
    assert(*Box::new(el) == el);
}

/// A non-empty array or set encodes as the 20-byte header (one dimension,
/// two zero reserved words, the element count as the upper bound, one as the
/// lower bound) followed by its length-prefixed elements.
pub proof fn lemma_array_like_header_layout(el: CodecV, items: Seq<ValueV>)
    requires
        1 <= items.len() <= 0xffff_ffff,
        spec_encode_array_elements(el, items) is Ok,
    ensures
        spec_encode_array_like(el, items) == Ok::<Seq<u8>, EncodeError>(
            spec_array_like_header(items.len() as u32) + spec_encode_array_elements(
                el,
                items,
            )->Ok_0,
        ),
        spec_array_like_header(items.len() as u32).len() == 20,
        spec_array_like_header(items.len() as u32).subrange(0, 4) == spec_u32_be(1u32),
        spec_array_like_header(items.len() as u32).subrange(4, 8) == spec_u32_be(0u32),
        spec_array_like_header(items.len() as u32).subrange(8, 12) == spec_u32_be(0u32),
        spec_array_like_header(items.len() as u32).subrange(12, 16) == spec_u32_be(
            items.len() as u32,
        ),
        spec_array_like_header(items.len() as u32).subrange(16, 20) == spec_u32_be(1u32),
{
    let h = spec_array_like_header(items.len() as u32);
    assert(h.subrange(0, 4) =~= spec_u32_be(1u32));
    assert(h.subrange(4, 8) =~= spec_u32_be(0u32));
    assert(h.subrange(8, 12) =~= spec_u32_be(0u32));
    assert(h.subrange(12, 16) =~= spec_u32_be(items.len() as u32));
    assert(h.subrange(16, 20) =~= spec_u32_be(1u32));
}

/// Enumeration membership: a declared member decodes to itself, any other
/// string is rejected as an extra enumeration value.
pub proof fn lemma_enum_membership(members: Seq<Seq<char>>, text: Seq<char>)
    ensures
        members.contains(text) ==> spec_decode_value(
            CodecV::Enum(members),
            Some(encode_utf8(text)),
        ) == Ok::<ValueV, DecodeError>(ValueV::Enum(text)),
        !members.contains(text) ==> spec_decode_value(
            CodecV::Enum(members),
            Some(encode_utf8(text)),
        ) == Err::<ValueV, DecodeError>(DecodeError::ExtraEnumValue),
{
    crate::scalars::lemma_str_round_trip(text);
}

} // verus!
