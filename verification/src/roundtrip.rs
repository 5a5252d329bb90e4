//! The round-trip law: decoding what a codec encoded gives the value back,
//! for every codec tree and every well-formed value the codec accepts.
use vstd::prelude::*;
use crate::codec::{
    spec_decode_array_elements, spec_decode_field, spec_decode_input_fields, spec_decode_tuple_fields,
    spec_decode_value, spec_encode_array_elements, spec_encode_array_like,
    spec_encode_input_elements, spec_encode_object_fields, spec_encode_tuple_elements,
    spec_encode_value, spec_require_all, CodecV,
};
use crate::errors::DecodeError;
use crate::model::{MICROS_PER_DAY, MIN_LOCAL_DATE_DAYS};
use crate::value::ValueV;
use crate::wire::{spec_u32_be, spec_u32_from_be};

verus! {

/// A value within its type's representable range: clock times lie within one
/// day, dates at or above the representable floor, and every element of a
/// container is itself well-formed.
pub open spec fn value_wf(v: ValueV) -> bool
    decreases v, 0int,
{
    match v {
        ValueV::LocalTime(m) => m < MICROS_PER_DAY,
        ValueV::LocalDate(d) => d >= MIN_LOCAL_DATE_DAYS,
        ValueV::SetOf(items) => values_wf(items),
        ValueV::Array(items) => values_wf(items),
        ValueV::Tuple(items) => values_wf(items),
        ValueV::NamedTuple { fields, .. } => values_wf(fields),
        ValueV::Object { fields, .. } => opt_values_wf(fields),
        _ => true,
    }
}

pub open spec fn values_wf(s: Seq<ValueV>) -> bool
    decreases s, 1int,
{
    s.len() == 0 || (value_wf(s[0]) && values_wf(s.drop_first()))
}

pub open spec fn opt_values_wf(s: Seq<Option<ValueV>>) -> bool
    decreases s, 1int,
{
    s.len() == 0 || ((match s[0] {
        Some(v) => value_wf(v),
        None => true,
    }) && opt_values_wf(s.drop_first()))
}

/// Well-formedness of a sequence is well-formedness of each element.
pub proof fn lemma_values_wf(s: Seq<ValueV>)
    ensures
        values_wf(s) <==> (forall|i: int| 0 <= i < s.len() ==> value_wf(#[trigger] s[i])),
    decreases s,
{
    if s.len() > 0 {
        lemma_values_wf(s.drop_first());
        assert forall|i: int| 1 <= i < s.len() implies s.drop_first()[i - 1] == s[i] by {}
    }
}

/// Well-formedness of an optional sequence is well-formedness of each
/// present element.
pub proof fn lemma_opt_values_wf(s: Seq<Option<ValueV>>)
    ensures
        opt_values_wf(s) <==> (forall|i: int|
            0 <= i < s.len() ==> ((#[trigger] s[i]) matches Some(v) ==> value_wf(v))),
    decreases s,
{
    if s.len() > 0 {
        lemma_opt_values_wf(s.drop_first());
        assert forall|i: int| 1 <= i < s.len() implies s.drop_first()[i - 1] == s[i] by {}
    }
}

/// Server-to-client tuple framing encodes values exactly like object fields
/// that are all present.
proof fn lemma_tuple_elements_as_fields(cs: Seq<CodecV>, items: Seq<ValueV>)
    requires
        cs.len() == items.len(),
    ensures
        spec_encode_tuple_elements(cs, items) == spec_encode_object_fields(
            cs,
            items.map_values(|v: ValueV| Some(v)),
        ),
    decreases cs,
{
    let fields = items.map_values(|v: ValueV| Some(v));
    if cs.len() == 0 {
    } else {
        lemma_tuple_elements_as_fields(cs.drop_first(), items.drop_first());
        assert(fields[0] == Some(items[0]));
        assert(items.drop_first().map_values(|v: ValueV| Some(v)) =~= fields.drop_first());
    }
}

/// All-present fields pass the required-elements check and shed their
/// wrappers.
proof fn lemma_require_all_of_present(items: Seq<ValueV>)
    ensures
        spec_require_all(items.map_values(|v: ValueV| Some(v))) == Ok::<Seq<ValueV>, DecodeError>(
            items,
        ),
{
    let fields = items.map_values(|v: ValueV| Some(v));
    assert(forall|i: int| 0 <= i < fields.len() ==> fields[i] is Some);
    assert(Seq::new(fields.len(), |i: int| fields[i]->Some_0) =~= items);
}

/// Decoding the framed elements of an array gives the items back.
proof fn lemma_array_elements_round_trip(c: CodecV, items: Seq<ValueV>, s: Seq<u8>, off: int)
    requires
        values_wf(items),
        spec_encode_array_elements(c, items) is Ok,
        0 <= off,
        off + spec_encode_array_elements(c, items)->Ok_0.len() <= s.len(),
        s.subrange(off, off + spec_encode_array_elements(c, items)->Ok_0.len())
            == spec_encode_array_elements(c, items)->Ok_0,
    ensures
        spec_decode_array_elements(c, s, off, items.len()) == Ok::<Seq<ValueV>, DecodeError>(items),
    decreases c, items.len() + 1,
{
    if items.len() == 0 {
        assert(items =~= Seq::<ValueV>::empty());
    } else {
        let body = spec_encode_array_elements(c, items)->Ok_0;
        let payload = spec_encode_value(c, items[0])->Ok_0;
        let rest_body = spec_encode_array_elements(c, items.drop_first())->Ok_0;
        assert(body == spec_u32_be(payload.len() as u32) + payload + rest_body);
        assert forall|j: int| 0 <= j < body.len() implies body[j] == s[off + j] by {
            assert(body[j] == s.subrange(off, off + body.len() as int)[j]);
        }
        let plen = payload.len() as int;
        assert forall|i: int| 0 <= i < 4 implies #[trigger] s.subrange(off, off + 4)[i]
            == spec_u32_be(payload.len() as u32)[i] by {
            assert(body[i] == s[off + i]);
        }
        assert(s.subrange(off, off + 4) =~= spec_u32_be(payload.len() as u32));
        crate::wire::lemma_u32_be_round_trip(payload.len() as u32);
        assert(spec_u32_from_be(s.subrange(off, off + 4)) == payload.len());
        assert forall|i: int| 0 <= i < plen implies #[trigger] s.subrange(off + 4, off + 4 + plen)[i]
            == payload[i] by {
            assert(body[4 + i] == s[off + (4 + i)]);
        }
        assert(s.subrange(off + 4, off + 4 + plen) =~= payload);
        lemma_round_trip(c, items[0]);
        let off2 = off + 4 + plen;
        assert forall|i: int| 0 <= i < rest_body.len() implies #[trigger] s.subrange(
            off2,
            off2 + rest_body.len() as int,
        )[i] == rest_body[i] by {
            assert(body[4 + plen + i] == s[off + (4 + plen + i)]);
        }
        assert(s.subrange(off2, off2 + rest_body.len() as int) =~= rest_body);
        lemma_array_elements_round_trip(c, items.drop_first(), s, off2);
        assert(seq![items[0]] + items.drop_first() =~= items);
    }
}

/// Decoding framed object fields gives the fields back, absent slots
/// distinctly absent.
proof fn lemma_object_fields_round_trip(
    cs: Seq<CodecV>,
    fields: Seq<Option<ValueV>>,
    s: Seq<u8>,
    off: int,
)
    requires
        cs.len() == fields.len(),
        opt_values_wf(fields),
        spec_encode_object_fields(cs, fields) is Ok,
        0 <= off,
        off + spec_encode_object_fields(cs, fields)->Ok_0.len() <= s.len(),
        s.subrange(off, off + spec_encode_object_fields(cs, fields)->Ok_0.len())
            == spec_encode_object_fields(cs, fields)->Ok_0,
    ensures
        spec_decode_tuple_fields(cs, s, off) == Ok::<Seq<Option<ValueV>>, DecodeError>(fields),
    decreases cs, 1int,
{
    if cs.len() == 0 {
        assert(fields =~= Seq::<Option<ValueV>>::empty());
    } else {
        let body = spec_encode_object_fields(cs, fields)->Ok_0;
        let rest_body = spec_encode_object_fields(cs.drop_first(), fields.drop_first())->Ok_0;
        assert forall|j: int| 0 <= j < body.len() implies body[j] == s[off + j] by {
            assert(body[j] == s.subrange(off, off + body.len() as int)[j]);
        }
        match fields[0] {
            None => {
                assert(body == crate::encode_composite::spec_null_element() + rest_body);
                assert forall|i: int| 0 <= i < 4 implies #[trigger] s.subrange(off + 4, off + 8)[i]
                    == spec_u32_be(0xffff_ffffu32)[i] by {
                    assert(body[4 + i] == s[off + (4 + i)]);
                }
                assert(s.subrange(off + 4, off + 8) =~= spec_u32_be(0xffff_ffffu32));
                crate::wire::lemma_u32_be_round_trip(0xffff_ffffu32);
                let off2 = off + 8;
                assert forall|i: int| 0 <= i < rest_body.len() implies #[trigger] s.subrange(
                    off2,
                    off2 + rest_body.len() as int,
                )[i] == rest_body[i] by {
                    assert(body[8 + i] == s[off + (8 + i)]);
                }
                assert(s.subrange(off2, off2 + rest_body.len() as int) =~= rest_body);
                lemma_object_fields_round_trip(cs.drop_first(), fields.drop_first(), s, off2);
                assert(seq![fields[0]] + fields.drop_first() =~= fields);
            },
            Some(v) => {
                let payload = spec_encode_value(cs[0], v)->Ok_0;
                let plen = payload.len() as int;
                assert(body == spec_u32_be(0u32) + spec_u32_be(payload.len() as u32) + payload
                    + rest_body);
                assert forall|i: int| 0 <= i < 4 implies #[trigger] s.subrange(off + 4, off + 8)[i]
                    == spec_u32_be(payload.len() as u32)[i] by {
                    assert(body[4 + i] == s[off + (4 + i)]);
                }
                assert(s.subrange(off + 4, off + 8) =~= spec_u32_be(payload.len() as u32));
                crate::wire::lemma_u32_be_round_trip(payload.len() as u32);
                assert(payload.len() <= 0xffff_fffe);
                assert forall|i: int| 0 <= i < plen implies #[trigger] s.subrange(off + 8, off + 8 + plen)[i]
                    == payload[i] by {
                    assert(body[8 + i] == s[off + (8 + i)]);
                }
                assert(s.subrange(off + 8, off + 8 + plen) =~= payload);
                lemma_round_trip(cs[0], v);
                assert(spec_decode_field(cs[0], Some(payload)) == Ok::<Option<ValueV>, DecodeError>(
                    Some(v),
                ));
                let off2 = off + 8 + plen;
                assert forall|i: int| 0 <= i < rest_body.len() implies #[trigger] s.subrange(
                    off2,
                    off2 + rest_body.len() as int,
                )[i] == rest_body[i] by {
                    assert(body[8 + plen + i] == s[off + (8 + plen + i)]);
                }
                assert(s.subrange(off2, off2 + rest_body.len() as int) =~= rest_body);
                lemma_object_fields_round_trip(cs.drop_first(), fields.drop_first(), s, off2);
                assert(seq![fields[0]] + fields.drop_first() =~= fields);
            },
        }
        // name the parsed element, so the facts above attach to the exact
        // span and offset the decoder computes
        match crate::decode_composite::spec_tuple_like_element(s, off) {
            Ok((span, next)) => {
                assert(spec_decode_field(cs[0], span) == Ok::<Option<ValueV>, DecodeError>(
                    fields[0],
                ));
                assert(spec_decode_tuple_fields(cs.drop_first(), s, next) == Ok::<
                    Seq<Option<ValueV>>,
                    DecodeError,
                >(fields.drop_first()));
            },
            Err(e) => {
                assert(false);
            },
        }
    }
}

/// Decoding framed client-to-server tuple elements gives the items back.
proof fn lemma_input_elements_round_trip(cs: Seq<CodecV>, items: Seq<ValueV>, s: Seq<u8>, off: int)
    requires
        cs.len() == items.len(),
        values_wf(items),
        spec_encode_input_elements(cs, items) is Ok,
        0 <= off,
        off + spec_encode_input_elements(cs, items)->Ok_0.len() <= s.len(),
        s.subrange(off, off + spec_encode_input_elements(cs, items)->Ok_0.len())
            == spec_encode_input_elements(cs, items)->Ok_0,
    ensures
        spec_decode_input_fields(cs, s, off) == Ok::<Seq<Option<ValueV>>, DecodeError>(
            items.map_values(|v: ValueV| Some(v)),
        ),
    decreases cs, 1int,
{
    let fields = items.map_values(|v: ValueV| Some(v));
    if cs.len() == 0 {
        assert(fields =~= Seq::<Option<ValueV>>::empty());
    } else {
        let body = spec_encode_input_elements(cs, items)->Ok_0;
        let payload = spec_encode_value(cs[0], items[0])->Ok_0;
        let rest_body = spec_encode_input_elements(cs.drop_first(), items.drop_first())->Ok_0;
        assert(body == spec_u32_be(payload.len() as u32) + payload + rest_body);
        assert forall|j: int| 0 <= j < body.len() implies body[j] == s[off + j] by {
            assert(body[j] == s.subrange(off, off + body.len() as int)[j]);
        }
        let plen = payload.len() as int;
        assert forall|i: int| 0 <= i < 4 implies #[trigger] s.subrange(off, off + 4)[i]
            == spec_u32_be(payload.len() as u32)[i] by {
            assert(body[i] == s[off + i]);
        }
        assert(s.subrange(off, off + 4) =~= spec_u32_be(payload.len() as u32));
        crate::wire::lemma_u32_be_round_trip(payload.len() as u32);
        assert(payload.len() <= 0xffff_fffe);
        assert forall|i: int| 0 <= i < plen implies #[trigger] s.subrange(off + 4, off + 4 + plen)[i]
            == payload[i] by {
            assert(body[4 + i] == s[off + (4 + i)]);
        }
        assert(s.subrange(off + 4, off + 4 + plen) =~= payload);
        lemma_round_trip(cs[0], items[0]);
        assert(spec_decode_field(cs[0], Some(payload)) == Ok::<Option<ValueV>, DecodeError>(
            Some(items[0]),
        ));
        let off2 = off + 4 + plen;
        assert forall|i: int| 0 <= i < rest_body.len() implies #[trigger] s.subrange(
            off2,
            off2 + rest_body.len() as int,
        )[i] == rest_body[i] by {
            assert(body[4 + plen + i] == s[off + (4 + plen + i)]);
        }
        assert(s.subrange(off2, off2 + rest_body.len() as int) =~= rest_body);
        lemma_input_elements_round_trip(cs.drop_first(), items.drop_first(), s, off2);
        assert(items.drop_first().map_values(|v: ValueV| Some(v)) =~= fields.drop_first());
        assert(seq![fields[0]] + fields.drop_first() =~= fields);
    }
}

/// The round-trip law: whatever a codec encodes, the same codec decodes back
/// to the same value, for every codec tree and every well-formed value the
/// encoder accepts.
pub proof fn lemma_round_trip(c: CodecV, v: ValueV)
    requires
        value_wf(v),
        spec_encode_value(c, v) is Ok,
    ensures
        spec_decode_value(c, Some(spec_encode_value(c, v)->Ok_0)) == Ok::<ValueV, DecodeError>(v),
    decreases c, 0int,
{
    let bytes = spec_encode_value(c, v)->Ok_0;
    match c {
        CodecV::Nothing => {},
        CodecV::Uuid => {
            crate::scalars::lemma_uuid_round_trip(v->Uuid_0);
        },
        CodecV::Str => {
            crate::scalars::lemma_str_round_trip(v->Str_0);
        },
        CodecV::Bytes => {},
        CodecV::Int16 => {
            crate::scalars::lemma_i16_round_trip(v->Int16_0);
        },
        CodecV::Int32 => {
            crate::scalars::lemma_i32_round_trip(v->Int32_0);
        },
        CodecV::Int64 => {
            crate::scalars::lemma_i64_round_trip(v->Int64_0);
        },
        CodecV::Float32 => {
            crate::scalars::lemma_float32_round_trip(v->Float32_0);
        },
        CodecV::Float64 => {
            crate::scalars::lemma_float64_round_trip(v->Float64_0);
        },
        CodecV::BigInt => {
            crate::scalars::lemma_bigint_round_trip(v->BigInt_0);
        },
        CodecV::Decimal => {
            crate::scalars::lemma_decimal_round_trip(v->Decimal_0);
        },
        CodecV::Bool => {
            crate::scalars::lemma_bool_round_trip(v->Bool_0);
        },
        CodecV::Datetime => {
            crate::scalars::lemma_i64_round_trip(v->Datetime_0);
        },
        CodecV::LocalDatetime => {
            crate::scalars::lemma_i64_round_trip(v->LocalDatetime_0);
        },
        CodecV::LocalDate => {
            crate::scalars::lemma_i32_round_trip(v->LocalDate_0);
        },
        CodecV::LocalTime => {
            let m = v->LocalTime_0;
            crate::wire::lemma_u64_be_round_trip(m);
            assert(m as i64 as u64 == m) by (bit_vector)
                requires
                    m < 86_400_000_000u64,
            ;
        },
        CodecV::Duration => {
            crate::scalars::lemma_duration_round_trip(v->Duration_0);
        },
        CodecV::Json => {
            crate::scalars::lemma_json_round_trip(v->Json_0);
        },
        CodecV::Scalar(inner) => {
            lemma_round_trip(*inner, v);
        },
        CodecV::Enum(members) => {
            crate::scalars::lemma_str_round_trip(v->Enum_0);
        },
        CodecV::SetOf(el) => {
            let items = v->SetOf_0;
            lemma_array_like_round_trip(*el, items, bytes);
        },
        CodecV::Array(el) => {
            let items = v->Array_0;
            lemma_array_like_round_trip(*el, items, bytes);
        },
        CodecV::Tuple(cs) => {
            let items = v->Tuple_0;
            lemma_counted_tuple_round_trip(cs, items, bytes);
        },
        CodecV::InputTuple(cs) => {
            let items = v->Tuple_0;
            lemma_counted_input_round_trip(cs, items, bytes);
        },
        CodecV::NamedTuple { shape, codecs } => {
            let items = v->NamedTuple_fields;
            lemma_counted_tuple_round_trip(codecs, items, bytes);
        },
        CodecV::InputNamedTuple { shape, codecs } => {
            let items = v->NamedTuple_fields;
            lemma_counted_input_round_trip(codecs, items, bytes);
        },
        CodecV::Object { shape, codecs } => {
            let fields = v->Object_fields;
            let body = spec_encode_object_fields(codecs, fields)->Ok_0;
            assert(bytes == spec_u32_be(codecs.len() as u32) + body);
            assert(bytes.subrange(0, 4) =~= spec_u32_be(codecs.len() as u32));
            crate::wire::lemma_u32_be_round_trip(codecs.len() as u32);
            assert(bytes.subrange(4, 4 + body.len() as int) =~= body);
            lemma_object_fields_round_trip(codecs, fields, bytes, 4);
        },
    }
}

/// One array-like container round-trips: the empty header decodes empty, the
/// dimensioned header recovers the count, and the elements recover the
/// items.
proof fn lemma_array_like_round_trip(el: CodecV, items: Seq<ValueV>, bytes: Seq<u8>)
    requires
        values_wf(items),
        spec_encode_array_like(el, items) is Ok,
        bytes == spec_encode_array_like(el, items)->Ok_0,
    ensures
        crate::decode_composite::spec_array_header(bytes) matches Ok((count, off))
            && count == items.len() && spec_decode_array_elements(el, bytes, off, items.len())
            == Ok::<Seq<ValueV>, DecodeError>(items),
    decreases el, items.len() + 2,
{
    crate::wire::lemma_u32_be_round_trip(0);
    crate::wire::lemma_u32_be_round_trip(1);
    if items.len() == 0 {
        assert(bytes.subrange(0, 4) =~= spec_u32_be(0u32));
        assert(bytes.len() == 12);
        assert(items =~= Seq::<ValueV>::empty());
    } else {
        let n = items.len() as u32;
        crate::wire::lemma_u32_be_round_trip(n);
        let body = spec_encode_array_elements(el, items)->Ok_0;
        assert(bytes == crate::codec::spec_array_like_header(n) + body);
        assert(bytes.subrange(0, 4) =~= spec_u32_be(1u32));
        assert(bytes.subrange(12, 16) =~= spec_u32_be(n));
        assert(bytes.subrange(16, 20) =~= spec_u32_be(1u32));
        assert(bytes.subrange(20, 20 + body.len() as int) =~= body);
        lemma_array_elements_round_trip(el, items, bytes, 20);
    }
}

/// One counted server-to-client tuple round-trips.
proof fn lemma_counted_tuple_round_trip(cs: Seq<CodecV>, items: Seq<ValueV>, bytes: Seq<u8>)
    requires
        cs.len() == items.len(),
        cs.len() <= 0xffff_ffff,
        values_wf(items),
        spec_encode_tuple_elements(cs, items) is Ok,
        bytes == spec_u32_be(cs.len() as u32) + spec_encode_tuple_elements(cs, items)->Ok_0,
    ensures
        crate::decode_composite::spec_count_header(bytes) == Ok::<u32, DecodeError>(
            cs.len() as u32,
        ),
        spec_decode_tuple_fields(cs, bytes, 4) == Ok::<Seq<Option<ValueV>>, DecodeError>(
            items.map_values(|v: ValueV| Some(v)),
        ),
        spec_require_all(items.map_values(|v: ValueV| Some(v))) == Ok::<Seq<ValueV>, DecodeError>(
            items,
        ),
    decreases cs, 2int,
{
    let body = spec_encode_tuple_elements(cs, items)->Ok_0;
    assert(bytes.subrange(0, 4) =~= spec_u32_be(cs.len() as u32));
    crate::wire::lemma_u32_be_round_trip(cs.len() as u32);
    lemma_tuple_elements_as_fields(cs, items);
    let fields = items.map_values(|v: ValueV| Some(v));
    proof_opt_wf_of_map(items);
    assert(bytes.subrange(4, 4 + body.len() as int) =~= body);
    lemma_object_fields_round_trip(cs, fields, bytes, 4);
    lemma_require_all_of_present(items);
}

/// One counted client-to-server tuple round-trips.
proof fn lemma_counted_input_round_trip(cs: Seq<CodecV>, items: Seq<ValueV>, bytes: Seq<u8>)
    requires
        cs.len() == items.len(),
        cs.len() <= 0xffff_ffff,
        values_wf(items),
        spec_encode_input_elements(cs, items) is Ok,
        bytes == spec_u32_be(cs.len() as u32) + spec_encode_input_elements(cs, items)->Ok_0,
    ensures
        crate::decode_composite::spec_count_header(bytes) == Ok::<u32, DecodeError>(
            cs.len() as u32,
        ),
        spec_decode_input_fields(cs, bytes, 4) == Ok::<Seq<Option<ValueV>>, DecodeError>(
            items.map_values(|v: ValueV| Some(v)),
        ),
        spec_require_all(items.map_values(|v: ValueV| Some(v))) == Ok::<Seq<ValueV>, DecodeError>(
            items,
        ),
    decreases cs, 2int,
{
    let body = spec_encode_input_elements(cs, items)->Ok_0;
    assert(bytes.subrange(0, 4) =~= spec_u32_be(cs.len() as u32));
    crate::wire::lemma_u32_be_round_trip(cs.len() as u32);
    assert(bytes.subrange(4, 4 + body.len() as int) =~= body);
    lemma_input_elements_round_trip(cs, items, bytes, 4);
    lemma_require_all_of_present(items);
}

/// Wrapping each item in `Some` keeps the sequence well-formed.
proof fn proof_opt_wf_of_map(items: Seq<ValueV>)
    requires
        values_wf(items),
    ensures
        opt_values_wf(items.map_values(|v: ValueV| Some(v))),
{
    lemma_values_wf(items);
    lemma_opt_values_wf(items.map_values(|v: ValueV| Some(v)));
}

/// The object corollary of the round-trip law: an object value encoded
/// through an object codec decodes back with its field order kept and every
/// absent slot still absent, rather than collapsed into a scalar null.
pub proof fn lemma_object_round_trip(
    shape: Seq<crate::value::ShapeElementV>,
    codecs: Seq<CodecV>,
    fields: Seq<Option<ValueV>>,
)
    requires
        value_wf(ValueV::Object { shape, fields }),
        spec_encode_value(CodecV::Object { shape, codecs }, ValueV::Object { shape, fields })
            is Ok,
    ensures
        spec_decode_value(
            CodecV::Object { shape, codecs },
            Some(
                spec_encode_value(
                    CodecV::Object { shape, codecs },
                    ValueV::Object { shape, fields },
                )->Ok_0,
            ),
        ) == Ok::<ValueV, DecodeError>(ValueV::Object { shape, fields }),
{
    lemma_round_trip(CodecV::Object { shape, codecs }, ValueV::Object { shape, fields });
}

} // verus!
