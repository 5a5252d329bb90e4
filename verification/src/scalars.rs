//! Bit-exact wire layouts of the primitive scalar types: the specification of
//! every layout as a byte sequence, the executable decoders and encoders, and
//! the round-trip lemmas.
use vstd::prelude::*;
use vstd::utf8::{decode_utf8, encode_utf8, valid_utf8};
use vstd::string::StringSliceAdditionalSpecFns;
use crate::errors::{DecodeError, EncodeError};
use crate::model::{
    BigInt, Decimal, Datetime, Duration, LocalDate, LocalDatetime, LocalTime, Uuid,
    MICROS_PER_DAY, MIN_LOCAL_DATE_DAYS,
};
use crate::serialization::Output;
use crate::value::{BigIntV, DecimalV};
use crate::wire::{
    spec_i16_be, spec_i16_from_be, spec_i32_be, spec_i32_from_be, spec_i64_be, spec_i64_from_be,
    spec_u128_be, spec_u128_from_be, spec_u16_be, spec_u16_from_be, spec_u32_be, spec_u32_from_be,
    spec_u64_be, spec_u64_from_be, read_i16_be, read_i32_be, read_i64_be, read_u128_be,
    read_u16_be, read_u32_be, read_u64_be,
};

verus! {

// ---------------------------------------------------------------------------
// Size discipline.
// ---------------------------------------------------------------------------
/// The classification an exact-size scalar gives a span of the wrong size.
pub open spec fn spec_size_error(len: int, expected: int) -> DecodeError {
    if len < expected {
        DecodeError::Underflow
    } else {
        DecodeError::ExtraData
    }
}

/// Accepts a span of exactly `expected` bytes: fewer underflow, more are
/// extra data.
pub fn ensure_exact_size(buf: &[u8], expected_size: usize) -> (r: Result<(), DecodeError>)
    ensures
        buf@.len() == expected_size <==> r is Ok,
        buf@.len() != expected_size ==> r == Err::<(), DecodeError>(
            spec_size_error(buf@.len() as int, expected_size as int),
        ),
{
    if buf.len() != expected_size {
        if buf.len() < expected_size {
            Err(DecodeError::Underflow)
        } else {
            Err(DecodeError::ExtraData)
        }
    } else {
        Ok(())
    }
}

// ---------------------------------------------------------------------------
// Specifications of each scalar's decode.
// ---------------------------------------------------------------------------
pub open spec fn spec_decode_bool(s: Seq<u8>) -> Result<bool, DecodeError> {
    if s.len() != 1 {
        Err(spec_size_error(s.len() as int, 1))
    } else if s[0] == 0 {
        Ok(false)
    } else if s[0] == 1 {
        Ok(true)
    } else {
        Err(DecodeError::InvalidBool)
    }
}

pub open spec fn spec_decode_i16(s: Seq<u8>) -> Result<i16, DecodeError> {
    if s.len() != 2 {
        Err(spec_size_error(s.len() as int, 2))
    } else {
        Ok(spec_i16_from_be(s))
    }
}

pub open spec fn spec_decode_i32(s: Seq<u8>) -> Result<i32, DecodeError> {
    if s.len() != 4 {
        Err(spec_size_error(s.len() as int, 4))
    } else {
        Ok(spec_i32_from_be(s))
    }
}

pub open spec fn spec_decode_i64(s: Seq<u8>) -> Result<i64, DecodeError> {
    if s.len() != 8 {
        Err(spec_size_error(s.len() as int, 8))
    } else {
        Ok(spec_i64_from_be(s))
    }
}

/// A 32-bit float travels as its raw bit pattern, big-endian.
pub open spec fn spec_decode_float32(s: Seq<u8>) -> Result<u32, DecodeError> {
    if s.len() != 4 {
        Err(spec_size_error(s.len() as int, 4))
    } else {
        Ok(spec_u32_from_be(s))
    }
}

/// A 64-bit float travels as its raw bit pattern, big-endian.
pub open spec fn spec_decode_float64(s: Seq<u8>) -> Result<u64, DecodeError> {
    if s.len() != 8 {
        Err(spec_size_error(s.len() as int, 8))
    } else {
        Ok(spec_u64_from_be(s))
    }
}

pub open spec fn spec_decode_uuid(s: Seq<u8>) -> Result<u128, DecodeError> {
    if s.len() != 16 {
        Err(spec_size_error(s.len() as int, 16))
    } else {
        Ok(spec_u128_from_be(s))
    }
}

pub open spec fn spec_decode_str(s: Seq<u8>) -> Result<Seq<char>, DecodeError> {
    if valid_utf8(s) {
        Ok(decode_utf8(s))
    } else {
        Err(DecodeError::InvalidUtf8)
    }
}

pub open spec fn spec_decode_bytes(s: Seq<u8>) -> Result<Seq<u8>, DecodeError> {
    Ok(s)
}

/// JSON: a 1-byte format tag that must equal 1, then UTF-8 text.
pub open spec fn spec_decode_json(s: Seq<u8>) -> Result<Seq<char>, DecodeError> {
    if s.len() < 1 {
        Err(DecodeError::Underflow)
    } else if s[0] != 1 {
        Err(DecodeError::InvalidJsonFormat)
    } else if valid_utf8(s.skip(1)) {
        Ok(decode_utf8(s.skip(1)))
    } else {
        Err(DecodeError::InvalidUtf8)
    }
}

/// Duration: 8 bytes of signed microseconds, then 4-byte day and month
/// fields that must both be zero.
pub open spec fn spec_decode_duration(s: Seq<u8>) -> Result<i64, DecodeError> {
    if s.len() != 16 {
        Err(spec_size_error(s.len() as int, 16))
    } else {
        let micros = spec_i64_from_be(s.subrange(0, 8));
        let days = spec_u32_from_be(s.subrange(8, 12));
        let months = spec_u32_from_be(s.subrange(12, 16));
        if months == 0 && days == 0 {
            Ok(micros)
        } else {
            Err(DecodeError::NonZeroReservedBytes)
        }
    }
}

/// Local date: a 4-byte signed day count, rejected below the representable
/// floor.
pub open spec fn spec_decode_local_date(s: Seq<u8>) -> Result<i32, DecodeError> {
    if s.len() != 4 {
        Err(spec_size_error(s.len() as int, 4))
    } else {
        let days = spec_i32_from_be(s);
        if days >= MIN_LOCAL_DATE_DAYS {
            Ok(days)
        } else {
            Err(DecodeError::InvalidDate)
        }
    }
}

/// Local time: 8 bytes of unsigned microseconds, below one day.
pub open spec fn spec_decode_local_time(s: Seq<u8>) -> Result<u64, DecodeError> {
    if s.len() != 8 {
        Err(spec_size_error(s.len() as int, 8))
    } else {
        let micros = spec_u64_from_be(s);
        if micros < MICROS_PER_DAY {
            Ok(micros)
        } else {
            Err(DecodeError::InvalidDate)
        }
    }
}

/// The base-10000 digits encoded after a digit-array header.
pub open spec fn spec_decode_digits(s: Seq<u8>, n: int) -> Seq<u16> {
    Seq::new(n as nat, |i: int| spec_u16_from_be(s.subrange(8 + 2 * i, 10 + 2 * i)))
}

pub open spec fn spec_decode_decimal(s: Seq<u8>) -> Result<DecimalV, DecodeError> {
    if s.len() < 8 {
        Err(DecodeError::Underflow)
    } else {
        let ndigits = spec_u16_from_be(s.subrange(0, 2)) as int;
        let weight = spec_i16_from_be(s.subrange(2, 4));
        let sign = spec_u16_from_be(s.subrange(4, 6));
        let dscale = spec_u16_from_be(s.subrange(6, 8));
        if sign != 0 && sign != 0x4000 {
            Err(DecodeError::BadSign)
        } else if s.len() - 8 != ndigits * 2 {
            Err(spec_size_error(s.len() - 8, ndigits * 2))
        } else {
            Ok(
                DecimalV {
                    negative: sign == 0x4000,
                    weight,
                    decimal_digits: dscale,
                    digits: spec_decode_digits(s, ndigits),
                },
            )
        }
    }
}

pub open spec fn spec_decode_bigint(s: Seq<u8>) -> Result<BigIntV, DecodeError> {
    if s.len() < 8 {
        Err(DecodeError::Underflow)
    } else {
        let ndigits = spec_u16_from_be(s.subrange(0, 2)) as int;
        let weight = spec_i16_from_be(s.subrange(2, 4));
        let sign = spec_u16_from_be(s.subrange(4, 6));
        let dscale = spec_u16_from_be(s.subrange(6, 8));
        if sign != 0 && sign != 0x4000 {
            Err(DecodeError::BadSign)
        } else if dscale != 0 {
            Err(DecodeError::NonZeroReservedBytes)
        } else if s.len() - 8 != ndigits * 2 {
            Err(spec_size_error(s.len() - 8, ndigits * 2))
        } else {
            Ok(
                BigIntV {
                    negative: sign == 0x4000,
                    weight,
                    digits: spec_decode_digits(s, ndigits),
                },
            )
        }
    }
}

// ---------------------------------------------------------------------------
// Specifications of each scalar's encode.
// ---------------------------------------------------------------------------
pub open spec fn spec_encode_bool(b: bool) -> Seq<u8> {
    if b {
        seq![1u8]
    } else {
        seq![0u8]
    }
}

/// The flattened big-endian encoding of a digit array.
pub open spec fn spec_encode_digits(ds: Seq<u16>) -> Seq<u8>
    decreases ds,
{
    if ds.len() == 0 {
        Seq::empty()
    } else {
        spec_u16_be(ds[0]) + spec_encode_digits(ds.drop_first())
    }
}

pub open spec fn spec_sign_word(negative: bool) -> u16 {
    if negative {
        0x4000u16
    } else {
        0u16
    }
}

/// The header and digits of a decimal; defined when the digit count fits the
/// 16-bit count field.
pub open spec fn spec_encode_decimal(d: DecimalV) -> Seq<u8>
    recommends
        d.digits.len() <= 0xffff,
{
    spec_u16_be(d.digits.len() as u16) + spec_i16_be(d.weight) + spec_u16_be(
        spec_sign_word(d.negative),
    ) + spec_u16_be(d.decimal_digits) + spec_encode_digits(d.digits)
}

/// The header and digits of a digit-array integer; its scale field is always
/// zero.
pub open spec fn spec_encode_bigint(b: BigIntV) -> Seq<u8>
    recommends
        b.digits.len() <= 0xffff,
{
    spec_u16_be(b.digits.len() as u16) + spec_i16_be(b.weight) + spec_u16_be(
        spec_sign_word(b.negative),
    ) + spec_u16_be(0u16) + spec_encode_digits(b.digits)
}

/// Duration: the microseconds, then zero day and month fields.
pub open spec fn spec_encode_duration(micros: i64) -> Seq<u8> {
    spec_i64_be(micros) + spec_u32_be(0u32) + spec_u32_be(0u32)
}

/// JSON: the format tag 1, then the text's UTF-8 bytes.
pub open spec fn spec_encode_json(text: Seq<char>) -> Seq<u8> {
    seq![1u8] + encode_utf8(text)
}

// ---------------------------------------------------------------------------
// Executable decoders.
// ---------------------------------------------------------------------------
/// Relies on `std::str::from_utf8`: succeeds exactly on well-formed UTF-8,
/// viewing the same bytes as text.
#[verifier::external_body]
fn try_str_from_utf8(b: &[u8]) -> (r: Option<&str>)
    ensures
        r is Some <==> valid_utf8(b@),
        r matches Some(s) ==> s.spec_bytes() == b@,
{
    std::str::from_utf8(b).ok()
}

pub fn decode_bool(buf: &[u8]) -> (r: Result<bool, DecodeError>)
    ensures
        r == spec_decode_bool(buf@),
{
    ensure_exact_size(buf, 1)?;
    match buf[0] {
        0 => Ok(false),
        1 => Ok(true),
        _ => Err(DecodeError::InvalidBool),
    }
}

pub fn decode_i16(buf: &[u8]) -> (r: Result<i16, DecodeError>)
    ensures
        r == spec_decode_i16(buf@),
{
    ensure_exact_size(buf, 2)?;
    proof {
        assert(buf@.subrange(0, 2) =~= buf@);
    }
    Ok(read_i16_be(buf, 0))
}

pub fn decode_i32(buf: &[u8]) -> (r: Result<i32, DecodeError>)
    ensures
        r == spec_decode_i32(buf@),
{
    ensure_exact_size(buf, 4)?;
    proof {
        assert(buf@.subrange(0, 4) =~= buf@);
    }
    Ok(read_i32_be(buf, 0))
}

pub fn decode_i64(buf: &[u8]) -> (r: Result<i64, DecodeError>)
    ensures
        r == spec_decode_i64(buf@),
{
    ensure_exact_size(buf, 8)?;
    proof {
        assert(buf@.subrange(0, 8) =~= buf@);
    }
    Ok(read_i64_be(buf, 0))
}

pub fn decode_float32_bits(buf: &[u8]) -> (r: Result<u32, DecodeError>)
    ensures
        r == spec_decode_float32(buf@),
{
    ensure_exact_size(buf, 4)?;
    proof {
        assert(buf@.subrange(0, 4) =~= buf@);
    }
    Ok(read_u32_be(buf, 0))
}

pub fn decode_float64_bits(buf: &[u8]) -> (r: Result<u64, DecodeError>)
    ensures
        r == spec_decode_float64(buf@),
{
    ensure_exact_size(buf, 8)?;
    proof {
        assert(buf@.subrange(0, 8) =~= buf@);
    }
    Ok(read_u64_be(buf, 0))
}

pub fn decode_uuid(buf: &[u8]) -> (r: Result<Uuid, DecodeError>)
    ensures
        match spec_decode_uuid(buf@) {
            Ok(bits) => r matches Ok(u) && u.0 == bits,
            Err(e) => r == Err::<Uuid, DecodeError>(e),
        },
{
    ensure_exact_size(buf, 16)?;
    proof {
        assert(buf@.subrange(0, 16) =~= buf@);
    }
    Ok(Uuid(read_u128_be(buf, 0)))
}

pub fn decode_str(buf: &[u8]) -> (r: Result<String, DecodeError>)
    ensures
        match spec_decode_str(buf@) {
            Ok(text) => r matches Ok(s) && s@ == text,
            Err(e) => r == Err::<String, DecodeError>(e),
        },
{
    match try_str_from_utf8(buf) {
        Some(s) => {
            proof {
                vstd::utf8::encode_utf8_decode_utf8(s@);
            }
            Ok(s.to_owned())
        },
        None => Err(DecodeError::InvalidUtf8),
    }
}

pub fn decode_bytes(buf: &[u8]) -> (r: Result<Vec<u8>, DecodeError>)
    ensures
        r matches Ok(b) && b@ == buf@,
{
    let mut out: Vec<u8> = Vec::new();
    out.extend_from_slice(buf);
    proof {
        assert(out@ =~= buf@);
    }
    Ok(out)
}

pub fn decode_json(buf: &[u8]) -> (r: Result<String, DecodeError>)
    ensures
        match spec_decode_json(buf@) {
            Ok(text) => r matches Ok(s) && s@ == text,
            Err(e) => r == Err::<String, DecodeError>(e),
        },
{
    if buf.len() < 1 {
        return Err(DecodeError::Underflow);
    }
    if buf[0] != 1 {
        return Err(DecodeError::InvalidJsonFormat);
    }
    let rest = vstd::slice::slice_subrange(buf, 1, buf.len());
    proof {
        assert(rest@ =~= buf@.skip(1));
    }
    match try_str_from_utf8(rest) {
        Some(s) => {
            proof {
                vstd::utf8::encode_utf8_decode_utf8(s@);
            }
            Ok(s.to_owned())
        },
        None => Err(DecodeError::InvalidUtf8),
    }
}

pub fn decode_duration(buf: &[u8]) -> (r: Result<Duration, DecodeError>)
    ensures
        match spec_decode_duration(buf@) {
            Ok(micros) => r matches Ok(d) && d.spec_micros() == micros,
            Err(e) => r == Err::<Duration, DecodeError>(e),
        },
{
    ensure_exact_size(buf, 16)?;
    let micros = read_i64_be(buf, 0);
    let days = read_u32_be(buf, 8);
    let months = read_u32_be(buf, 12);
    if months == 0 && days == 0 {
        Ok(Duration::from_micros(micros))
    } else {
        Err(DecodeError::NonZeroReservedBytes)
    }
}

pub fn decode_datetime(buf: &[u8]) -> (r: Result<Datetime, DecodeError>)
    ensures
        match spec_decode_i64(buf@) {
            Ok(micros) => r matches Ok(d) && d.spec_micros() == micros,
            Err(e) => r == Err::<Datetime, DecodeError>(e),
        },
{
    let micros = decode_i64(buf)?;
    Ok(Datetime::from_micros(micros))
}

pub fn decode_local_datetime(buf: &[u8]) -> (r: Result<LocalDatetime, DecodeError>)
    ensures
        match spec_decode_i64(buf@) {
            Ok(micros) => r matches Ok(d) && d.spec_micros() == micros,
            Err(e) => r == Err::<LocalDatetime, DecodeError>(e),
        },
{
    let micros = decode_i64(buf)?;
    Ok(LocalDatetime::from_micros(micros))
}

pub fn decode_local_date(buf: &[u8]) -> (r: Result<LocalDate, DecodeError>)
    ensures
        match spec_decode_local_date(buf@) {
            Ok(days) => r matches Ok(d) && d.spec_days() == days,
            Err(e) => r == Err::<LocalDate, DecodeError>(e),
        },
{
    let days = decode_i32(buf)?;
    if days >= MIN_LOCAL_DATE_DAYS {
        Ok(LocalDate::from_days(days))
    } else {
        Err(DecodeError::InvalidDate)
    }
}

pub fn decode_local_time(buf: &[u8]) -> (r: Result<LocalTime, DecodeError>)
    ensures
        match spec_decode_local_time(buf@) {
            Ok(micros) => r matches Ok(t) && t.spec_micros() == micros,
            Err(e) => r == Err::<LocalTime, DecodeError>(e),
        },
{
    ensure_exact_size(buf, 8)?;
    proof {
        assert(buf@.subrange(0, 8) =~= buf@);
    }
    let micros = read_u64_be(buf, 0);
    if micros < MICROS_PER_DAY {
        Ok(LocalTime::from_micros(micros))
    } else {
        Err(DecodeError::InvalidDate)
    }
}

/// Reads the `ndigits` base-10000 digits that follow a digit-array header.
fn decode_digits(buf: &[u8], ndigits: u16) -> (r: Vec<u16>)
    requires
        buf@.len() == 8 + 2 * (ndigits as int),
    ensures
        r@ == spec_decode_digits(buf@, ndigits as int),
{
    let mut digits: Vec<u16> = Vec::new();
    let n = ndigits as usize;
    let mut i: usize = 0;
    while i < n
        invariant
            0 <= i <= n,
            n == ndigits as usize,
            n <= 0xffff,
            buf@.len() == 8 + 2 * n,
            digits@ =~= spec_decode_digits(buf@, ndigits as int).take(i as int),
        decreases n - i,
    {
        let d = read_u16_be(buf, 8 + 2 * i);
        digits.push(d);
        i = i + 1;
        proof {
            let specd = spec_decode_digits(buf@, ndigits as int);
            assert(specd[i - 1] == spec_u16_from_be(
                buf@.subrange(8 + 2 * (i - 1), 10 + 2 * (i - 1)),
            ));
            assert(8 + 2 * (i - 1) + 2 == 10 + 2 * (i - 1));
            assert(digits@ =~= specd.take(i as int));
        }
    }
    proof {
        assert(digits@ =~= spec_decode_digits(buf@, ndigits as int));
    }
    digits
}

pub fn decode_decimal(buf: &[u8]) -> (r: Result<Decimal, DecodeError>)
    ensures
        match spec_decode_decimal(buf@) {
            Ok(d) => r matches Ok(v) && v@ == d,
            Err(e) => r == Err::<Decimal, DecodeError>(e),
        },
{
    if buf.len() < 8 {
        return Err(DecodeError::Underflow);
    }
    let ndigits = read_u16_be(buf, 0);
    let weight = read_i16_be(buf, 2);
    let sign = read_u16_be(buf, 4);
    let dscale = read_u16_be(buf, 6);
    if sign != 0 && sign != 0x4000 {
        return Err(DecodeError::BadSign);
    }
    let body_len = buf.len() - 8;
    if body_len != 2 * (ndigits as usize) {
        if body_len < 2 * (ndigits as usize) {
            return Err(DecodeError::Underflow);
        } else {
            return Err(DecodeError::ExtraData);
        }
    }
    let digits = decode_digits(buf, ndigits);
    Ok(Decimal { negative: sign == 0x4000, weight, decimal_digits: dscale, digits })
}

pub fn decode_bigint(buf: &[u8]) -> (r: Result<BigInt, DecodeError>)
    ensures
        match spec_decode_bigint(buf@) {
            Ok(b) => r matches Ok(v) && v@ == b,
            Err(e) => r == Err::<BigInt, DecodeError>(e),
        },
{
    if buf.len() < 8 {
        return Err(DecodeError::Underflow);
    }
    let ndigits = read_u16_be(buf, 0);
    let weight = read_i16_be(buf, 2);
    let sign = read_u16_be(buf, 4);
    let dscale = read_u16_be(buf, 6);
    if sign != 0 && sign != 0x4000 {
        return Err(DecodeError::BadSign);
    }
    if dscale != 0 {
        return Err(DecodeError::NonZeroReservedBytes);
    }
    let body_len = buf.len() - 8;
    if body_len != 2 * (ndigits as usize) {
        if body_len < 2 * (ndigits as usize) {
            return Err(DecodeError::Underflow);
        } else {
            return Err(DecodeError::ExtraData);
        }
    }
    let digits = decode_digits(buf, ndigits);
    Ok(BigInt { negative: sign == 0x4000, weight, digits })
}

// ---------------------------------------------------------------------------
// Executable encoders.
// ---------------------------------------------------------------------------
pub fn encode_bool(out: &mut Output, b: bool)
    ensures
        final(out)@ == old(out)@ + spec_encode_bool(b),
{
    out.put_u8(if b {
        1
    } else {
        0
    });
}

/// `spec_encode_digits` grows by one digit's bytes at the end.
proof fn lemma_encode_digits_snoc(ds: Seq<u16>, i: int)
    requires
        0 <= i < ds.len(),
    ensures
        spec_encode_digits(ds.take(i + 1)) == spec_encode_digits(ds.take(i)) + spec_u16_be(ds[i]),
    decreases i,
{
    if i == 0 {
        assert(ds.take(1).drop_first() =~= Seq::<u16>::empty());
        assert(ds.take(1)[0] == ds[0]);
        assert(spec_encode_digits(Seq::<u16>::empty()) =~= Seq::<u8>::empty());
        assert(spec_encode_digits(ds.take(1)) =~= spec_u16_be(ds[0]));
        assert(spec_encode_digits(ds.take(0)) =~= Seq::<u8>::empty());
        assert(spec_encode_digits(ds.take(0)) + spec_u16_be(ds[0]) =~= spec_u16_be(ds[0]));
    } else {
        lemma_encode_digits_snoc(ds.drop_first(), i - 1);
        assert(ds.take(i + 1).drop_first() =~= ds.drop_first().take(i));
        assert(ds.take(i).drop_first() =~= ds.drop_first().take(i - 1));
        assert(ds.take(i + 1)[0] == ds[0] && ds.take(i)[0] == ds[0]);
        assert(ds.drop_first()[i - 1] == ds[i]);
        assert(spec_encode_digits(ds.take(i + 1)) == spec_u16_be(ds[0]) + spec_encode_digits(
            ds.drop_first().take(i),
        ));
        assert(spec_u16_be(ds[0]) + (spec_encode_digits(ds.drop_first().take(i - 1)) + spec_u16_be(
            ds[i],
        )) =~= (spec_u16_be(ds[0]) + spec_encode_digits(ds.drop_first().take(i - 1))) + spec_u16_be(
            ds[i],
        ));
    }
}

/// Appends the flattened digit array.
fn encode_digits(out: &mut Output, ds: &Vec<u16>)
    ensures
        final(out)@ == old(out)@ + spec_encode_digits(ds@),
{
    let n = ds.len();
    let mut i: usize = 0;
    while i < n
        invariant
            0 <= i <= n,
            n == ds@.len(),
            out@ == old(out)@ + spec_encode_digits(ds@.take(i as int)),
        decreases n - i,
    {
        out.put_u16(ds[i]);
        proof {
            lemma_encode_digits_snoc(ds@, i as int);
            assert(old(out)@ + spec_encode_digits(ds@.take(i as int)) + spec_u16_be(ds@[i as int])
                =~= old(out)@ + spec_encode_digits(ds@.take(i + 1)));
        }
        i = i + 1;
    }
    proof {
        assert(ds@.take(n as int) =~= ds@);
    }
}

/// Encodes a decimal, or rejects a digit array longer than the 16-bit count
/// field carries; nothing is written on the error path.
pub fn encode_decimal(out: &mut Output, d: &Decimal) -> (r: Result<(), EncodeError>)
    ensures
        d.digits@.len() <= 0xffff <==> r is Ok,
        r is Ok ==> final(out)@ == old(out)@ + spec_encode_decimal(d@),
        r is Err ==> r == Err::<(), EncodeError>(EncodeError::BigIntTooLong) && final(out)@ == old(
            out,
        )@,
{
    if d.digits.len() > 0xffff {
        return Err(EncodeError::BigIntTooLong);
    }
    out.put_u16(d.digits.len() as u16);
    out.put_i16(d.weight);
    out.put_u16(if d.negative {
        0x4000
    } else {
        0
    });
    out.put_u16(d.decimal_digits);
    encode_digits(out, &d.digits);
    proof {
        assert(final(out)@ =~= old(out)@ + spec_encode_decimal(d@));
    }
    Ok(())
}

/// Encodes a digit-array integer with its zero scale field; nothing is
/// written on the error path.
pub fn encode_bigint(out: &mut Output, b: &BigInt) -> (r: Result<(), EncodeError>)
    ensures
        b.digits@.len() <= 0xffff <==> r is Ok,
        r is Ok ==> final(out)@ == old(out)@ + spec_encode_bigint(b@),
        r is Err ==> r == Err::<(), EncodeError>(EncodeError::BigIntTooLong) && final(out)@ == old(
            out,
        )@,
{
    if b.digits.len() > 0xffff {
        return Err(EncodeError::BigIntTooLong);
    }
    out.put_u16(b.digits.len() as u16);
    out.put_i16(b.weight);
    out.put_u16(if b.negative {
        0x4000
    } else {
        0
    });
    out.put_u16(0);
    encode_digits(out, &b.digits);
    proof {
        assert(final(out)@ =~= old(out)@ + spec_encode_bigint(b@));
    }
    Ok(())
}

pub fn encode_duration(out: &mut Output, d: &Duration)
    ensures
        final(out)@ == old(out)@ + spec_encode_duration(d.spec_micros()),
{
    out.put_i64(d.to_micros());
    out.put_u32(0);
    out.put_u32(0);
    proof {
        assert(final(out)@ =~= old(out)@ + spec_encode_duration(d.spec_micros()));
    }
}

pub fn encode_str(out: &mut Output, s: &str)
    ensures
        final(out)@ == old(out)@ + encode_utf8(s@),
{
    out.extend(s.as_bytes());
}

pub fn encode_json_text(out: &mut Output, s: &str)
    ensures
        final(out)@ == old(out)@ + spec_encode_json(s@),
{
    out.put_u8(1);
    out.extend(s.as_bytes());
    proof {
        assert(final(out)@ =~= old(out)@ + spec_encode_json(s@));
    }
}

// ---------------------------------------------------------------------------
// Round trips: decoding what was encoded gives the value back.
// ---------------------------------------------------------------------------
/// Booleans survive the wire.
pub proof fn lemma_bool_round_trip(b: bool)
    ensures
        spec_decode_bool(spec_encode_bool(b)) == Ok::<bool, DecodeError>(b),
{
}

/// 16-bit integers survive the wire.
pub proof fn lemma_i16_round_trip(x: i16)
    ensures
        spec_decode_i16(spec_i16_be(x)) == Ok::<i16, DecodeError>(x),
{
    crate::wire::lemma_i16_be_round_trip(x);
}

/// 32-bit integers survive the wire.
pub proof fn lemma_i32_round_trip(x: i32)
    ensures
        spec_decode_i32(spec_i32_be(x)) == Ok::<i32, DecodeError>(x),
{
    crate::wire::lemma_i32_be_round_trip(x);
}

/// 64-bit integers survive the wire.
pub proof fn lemma_i64_round_trip(x: i64)
    ensures
        spec_decode_i64(spec_i64_be(x)) == Ok::<i64, DecodeError>(x),
{
    crate::wire::lemma_i64_be_round_trip(x);
}

/// 32-bit float bit patterns survive the wire.
pub proof fn lemma_float32_round_trip(bits: u32)
    ensures
        spec_decode_float32(spec_u32_be(bits)) == Ok::<u32, DecodeError>(bits),
{
    crate::wire::lemma_u32_be_round_trip(bits);
}

/// 64-bit float bit patterns survive the wire.
pub proof fn lemma_float64_round_trip(bits: u64)
    ensures
        spec_decode_float64(spec_u64_be(bits)) == Ok::<u64, DecodeError>(bits),
{
    crate::wire::lemma_u64_be_round_trip(bits);
}

/// 128-bit type ids survive the wire.
pub proof fn lemma_uuid_round_trip(bits: u128)
    ensures
        spec_decode_uuid(spec_u128_be(bits)) == Ok::<u128, DecodeError>(bits),
{
    crate::wire::lemma_u128_be_round_trip(bits);
}

/// Text survives the wire.
pub proof fn lemma_str_round_trip(text: Seq<char>)
    ensures
        spec_decode_str(encode_utf8(text)) == Ok::<Seq<char>, DecodeError>(text),
{
    vstd::utf8::encode_utf8_valid_utf8(text);
    vstd::utf8::encode_utf8_decode_utf8(text);
}

/// JSON text survives the wire, tag included.
pub proof fn lemma_json_round_trip(text: Seq<char>)
    ensures
        spec_decode_json(spec_encode_json(text)) == Ok::<Seq<char>, DecodeError>(text),
{
    let s = spec_encode_json(text);
    assert(s.skip(1) =~= encode_utf8(text));
    vstd::utf8::encode_utf8_valid_utf8(text);
    vstd::utf8::encode_utf8_decode_utf8(text);
}

/// Durations survive the wire.
pub proof fn lemma_duration_round_trip(micros: i64)
    ensures
        spec_decode_duration(spec_encode_duration(micros)) == Ok::<i64, DecodeError>(micros),
{
    let s = spec_encode_duration(micros);
    crate::wire::lemma_i64_be_round_trip(micros);
    crate::wire::lemma_u32_be_round_trip(0);
    assert(s.subrange(0, 8) =~= spec_i64_be(micros));
    assert(s.subrange(8, 12) =~= spec_u32_be(0u32));
    assert(s.subrange(12, 16) =~= spec_u32_be(0u32));
}

/// Digit arrays survive the wire.
proof fn lemma_digits_round_trip(ds: Seq<u16>)
    ensures
        spec_encode_digits(ds).len() == 2 * ds.len(),
        forall|i: int|
            0 <= i < ds.len() ==> spec_u16_from_be(
                #[trigger] spec_encode_digits(ds).subrange(2 * i, 2 * i + 2),
            ) == ds[i],
    decreases ds,
{
    crate::wire::lemma_u16_be_round_trip(if ds.len() > 0 {
        ds[0]
    } else {
        0
    });
    if ds.len() > 0 {
        lemma_digits_round_trip(ds.drop_first());
        assert forall|i: int| 0 <= i < ds.len() implies spec_u16_from_be(
            #[trigger] spec_encode_digits(ds).subrange(2 * i, 2 * i + 2),
        ) == ds[i] by {
            if i == 0 {
                assert(spec_encode_digits(ds).subrange(0, 2) =~= spec_u16_be(ds[0]));
                crate::wire::lemma_u16_be_round_trip(ds[0]);
            } else {
                assert(spec_encode_digits(ds).subrange(2 * i, 2 * i + 2) =~= spec_encode_digits(
                    ds.drop_first(),
                ).subrange(2 * (i - 1), 2 * (i - 1) + 2));
                assert(ds.drop_first()[i - 1] == ds[i]);
            }
        }
    }
}

/// Decimals survive the wire when their digit array fits the count field.
pub proof fn lemma_decimal_round_trip(d: DecimalV)
    requires
        d.digits.len() <= 0xffff,
    ensures
        spec_decode_decimal(spec_encode_decimal(d)) == Ok::<DecimalV, DecodeError>(d),
{
    let s = spec_encode_decimal(d);
    let n = d.digits.len() as u16;
    crate::wire::lemma_u16_be_round_trip(n);
    crate::wire::lemma_i16_be_round_trip(d.weight);
    crate::wire::lemma_u16_be_round_trip(spec_sign_word(d.negative));
    crate::wire::lemma_u16_be_round_trip(d.decimal_digits);
    lemma_digits_round_trip(d.digits);
    assert(s.subrange(0, 2) =~= spec_u16_be(n));
    assert(s.subrange(2, 4) =~= spec_i16_be(d.weight));
    assert(s.subrange(4, 6) =~= spec_u16_be(spec_sign_word(d.negative)));
    assert(s.subrange(6, 8) =~= spec_u16_be(d.decimal_digits));
    assert forall|i: int| 0 <= i < d.digits.len() implies #[trigger] spec_decode_digits(
        s,
        n as int,
    )[i] == d.digits[i] by {
        assert(s.subrange(8 + 2 * i, 10 + 2 * i) =~= spec_encode_digits(d.digits).subrange(
            2 * i,
            2 * i + 2,
        ));
    }
    assert(spec_decode_digits(s, n as int) =~= d.digits);
    let dec = spec_decode_decimal(s);
    assert(dec matches Ok(v) && v.negative == d.negative && v.weight == d.weight
        && v.decimal_digits == d.decimal_digits && v.digits == d.digits);
}

/// Digit-array integers survive the wire when their digit array fits the
/// count field.
pub proof fn lemma_bigint_round_trip(b: BigIntV)
    requires
        b.digits.len() <= 0xffff,
    ensures
        spec_decode_bigint(spec_encode_bigint(b)) == Ok::<BigIntV, DecodeError>(b),
{
    let s = spec_encode_bigint(b);
    let n = b.digits.len() as u16;
    crate::wire::lemma_u16_be_round_trip(n);
    crate::wire::lemma_i16_be_round_trip(b.weight);
    crate::wire::lemma_u16_be_round_trip(spec_sign_word(b.negative));
    crate::wire::lemma_u16_be_round_trip(0u16);
    lemma_digits_round_trip(b.digits);
    assert(s.subrange(0, 2) =~= spec_u16_be(n));
    assert(s.subrange(2, 4) =~= spec_i16_be(b.weight));
    assert(s.subrange(4, 6) =~= spec_u16_be(spec_sign_word(b.negative)));
    assert(s.subrange(6, 8) =~= spec_u16_be(0u16));
    assert forall|i: int| 0 <= i < b.digits.len() implies #[trigger] spec_decode_digits(
        s,
        n as int,
    )[i] == b.digits[i] by {
        assert(s.subrange(8 + 2 * i, 10 + 2 * i) =~= spec_encode_digits(b.digits).subrange(
            2 * i,
            2 * i + 2,
        ));
    }
    assert(spec_decode_digits(s, n as int) =~= b.digits);
    let dec = spec_decode_bigint(s);
    assert(dec matches Ok(v) && v.negative == b.negative && v.weight == b.weight && v.digits
        == b.digits);
}

/// The size discipline of the fixed-width scalars: a shorter span is an
/// underflow, a longer span is extra data, and the exact width is accepted
/// by every layout whose bytes are unconstrained.
pub proof fn lemma_size_classification(s: Seq<u8>)
    ensures
        s.len() < 1 ==> spec_decode_bool(s) == Err::<bool, DecodeError>(DecodeError::Underflow),
        s.len() > 1 ==> spec_decode_bool(s) == Err::<bool, DecodeError>(DecodeError::ExtraData),
        s.len() < 2 ==> spec_decode_i16(s) == Err::<i16, DecodeError>(DecodeError::Underflow),
        s.len() > 2 ==> spec_decode_i16(s) == Err::<i16, DecodeError>(DecodeError::ExtraData),
        s.len() == 2 ==> spec_decode_i16(s) is Ok,
        s.len() < 4 ==> spec_decode_i32(s) == Err::<i32, DecodeError>(DecodeError::Underflow),
        s.len() > 4 ==> spec_decode_i32(s) == Err::<i32, DecodeError>(DecodeError::ExtraData),
        s.len() == 4 ==> spec_decode_i32(s) is Ok,
        s.len() < 8 ==> spec_decode_i64(s) == Err::<i64, DecodeError>(DecodeError::Underflow),
        s.len() > 8 ==> spec_decode_i64(s) == Err::<i64, DecodeError>(DecodeError::ExtraData),
        s.len() == 8 ==> spec_decode_i64(s) is Ok,
        s.len() < 4 ==> spec_decode_float32(s) == Err::<u32, DecodeError>(DecodeError::Underflow),
        s.len() > 4 ==> spec_decode_float32(s) == Err::<u32, DecodeError>(DecodeError::ExtraData),
        s.len() == 4 ==> spec_decode_float32(s) is Ok,
        s.len() < 8 ==> spec_decode_float64(s) == Err::<u64, DecodeError>(DecodeError::Underflow),
        s.len() > 8 ==> spec_decode_float64(s) == Err::<u64, DecodeError>(DecodeError::ExtraData),
        s.len() == 8 ==> spec_decode_float64(s) is Ok,
        s.len() < 16 ==> spec_decode_uuid(s) == Err::<u128, DecodeError>(DecodeError::Underflow),
        s.len() > 16 ==> spec_decode_uuid(s) == Err::<u128, DecodeError>(DecodeError::ExtraData),
        s.len() == 16 ==> spec_decode_uuid(s) is Ok,
        s.len() < 16 ==> spec_decode_duration(s) == Err::<i64, DecodeError>(DecodeError::Underflow),
        s.len() > 16 ==> spec_decode_duration(s) == Err::<i64, DecodeError>(DecodeError::ExtraData),
{
}

/// The boolean layout: one byte, `0x00` false, `0x01` true, anything else
/// rejected as an invalid boolean.
pub proof fn lemma_bool_byte_classification(s: Seq<u8>)
    requires
        s.len() == 1,
    ensures
        s[0] == 0 ==> spec_decode_bool(s) == Ok::<bool, DecodeError>(false),
        s[0] == 1 ==> spec_decode_bool(s) == Ok::<bool, DecodeError>(true),
        s[0] != 0 && s[0] != 1 ==> spec_decode_bool(s) == Err::<bool, DecodeError>(
            DecodeError::InvalidBool,
        ),
{
}

/// The duration layout rejects any non-zero day or month word, and accepts
/// exactly the microsecond count otherwise.
pub proof fn lemma_duration_reserved_words(s: Seq<u8>)
    requires
        s.len() == 16,
    ensures
        spec_u32_from_be(s.subrange(8, 12)) == 0 && spec_u32_from_be(s.subrange(12, 16)) == 0
            ==> spec_decode_duration(s) == Ok::<i64, DecodeError>(spec_i64_from_be(s.subrange(0, 8))),
        spec_u32_from_be(s.subrange(8, 12)) != 0 || spec_u32_from_be(s.subrange(12, 16)) != 0
            ==> spec_decode_duration(s) == Err::<i64, DecodeError>(DecodeError::NonZeroReservedBytes),
{
}

} // verus!
