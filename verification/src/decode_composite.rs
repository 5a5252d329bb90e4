//! Decoding side of the two composite framing conventions: tuple-like
//! (counted elements, each behind a reserved word and a length word, with an
//! all-ones length as the null sentinel) and array-like (a dimensioned
//! header, then length-prefixed elements that are never null).
use vstd::prelude::*;
use crate::errors::DecodeError;
use crate::serialization::Input;
use crate::wire::{spec_u32_from_be, read_u32_be};

verus! {

/// The all-ones length word: the null sentinel of tuple-like framing.
pub const NULL_ELEMENT_LENGTH: u32 = 0xffff_ffff;

// ---------------------------------------------------------------------------
// Specifications.
// ---------------------------------------------------------------------------
/// One tuple-like element in server-to-client framing at offset `off`: a
/// 4-byte reserved word (ignored), then a length word; the sentinel means an
/// absent element. Returns the element's span and the following offset.
pub open spec fn spec_tuple_like_element(s: Seq<u8>, off: int) -> Result<
    (Option<Seq<u8>>, int),
    DecodeError,
> {
    if off + 8 > s.len() {
        Err(DecodeError::Underflow)
    } else {
        let len = spec_u32_from_be(s.subrange(off + 4, off + 8));
        if len == NULL_ELEMENT_LENGTH {
            Ok((None, off + 8))
        } else if off + 8 + len > s.len() {
            Err(DecodeError::Underflow)
        } else {
            Ok((Some(s.subrange(off + 8, off + 8 + len)), off + 8 + len))
        }
    }
}

/// One tuple-like element in client-to-server framing at offset `off`: a
/// length word alone, with the same null sentinel.
pub open spec fn spec_input_element(s: Seq<u8>, off: int) -> Result<
    (Option<Seq<u8>>, int),
    DecodeError,
> {
    if off + 4 > s.len() {
        Err(DecodeError::Underflow)
    } else {
        let len = spec_u32_from_be(s.subrange(off, off + 4));
        if len == NULL_ELEMENT_LENGTH {
            Ok((None, off + 4))
        } else if off + 4 + len > s.len() {
            Err(DecodeError::Underflow)
        } else {
            Ok((Some(s.subrange(off + 4, off + 4 + len)), off + 4 + len))
        }
    }
}

/// One array-like element at offset `off`: a length word, then that many
/// payload bytes; array elements are never absent.
pub open spec fn spec_array_element(s: Seq<u8>, off: int) -> Result<(Seq<u8>, int), DecodeError> {
    if off + 4 > s.len() {
        Err(DecodeError::Underflow)
    } else {
        let len = spec_u32_from_be(s.subrange(off, off + 4));
        if off + 4 + len > s.len() {
            Err(DecodeError::Underflow)
        } else {
            Ok((s.subrange(off + 4, off + 4 + len), off + 4 + len))
        }
    }
}

/// The leading count word of tuple-like framing.
pub open spec fn spec_count_header(s: Seq<u8>) -> Result<u32, DecodeError> {
    if s.len() < 4 {
        Err(DecodeError::Underflow)
    } else {
        Ok(spec_u32_from_be(s.subrange(0, 4)))
    }
}

/// The array-like header: a dimension count that must be zero (no elements
/// follow) or one (an upper and lower bound follow, whose difference counts
/// the elements). Returns the element count and the offset of the first
/// element.
pub open spec fn spec_array_header(s: Seq<u8>) -> Result<(int, int), DecodeError> {
    if s.len() < 12 {
        Err(DecodeError::Underflow)
    } else {
        let ndims = spec_u32_from_be(s.subrange(0, 4));
        if ndims == 0 {
            Ok((0, 12))
        } else if ndims != 1 {
            Err(DecodeError::InvalidArrayShape)
        } else if s.len() < 20 {
            Err(DecodeError::Underflow)
        } else {
            let upper = spec_u32_from_be(s.subrange(12, 16)) as int;
            let lower = spec_u32_from_be(s.subrange(16, 20)) as int;
            let count = upper - lower + 1;
            if count < 0 {
                Ok((0, 20))
            } else {
                Ok((count, 20))
            }
        }
    }
}

// ---------------------------------------------------------------------------
// Executable readers.
// ---------------------------------------------------------------------------
pub fn read_tuple_like_element<'t>(s: &'t [u8], pos: usize) -> (r: Result<
    (Input<'t>, usize),
    DecodeError,
>)
    requires
        pos <= s@.len(),
    ensures
        match spec_tuple_like_element(s@, pos as int) {
            Ok((sp, np)) => r matches Ok((inp, p)) && inp@ == sp && p == np,
            Err(e) => r == Err::<(Input<'t>, usize), DecodeError>(e),
        },
{
    if s.len() - pos < 8 {
        return Err(DecodeError::Underflow);
    }
    let len = read_u32_be(s, pos + 4);
    if len == NULL_ELEMENT_LENGTH {
        Ok((Input(None), pos + 8))
    } else {
        if len as usize > s.len() - (pos + 8) {
            return Err(DecodeError::Underflow);
        }
        let span = vstd::slice::slice_subrange(s, pos + 8, pos + 8 + len as usize);
        Ok((Input(Some(span)), pos + 8 + len as usize))
    }
}

pub fn read_input_element<'t>(s: &'t [u8], pos: usize) -> (r: Result<
    (Input<'t>, usize),
    DecodeError,
>)
    requires
        pos <= s@.len(),
    ensures
        match spec_input_element(s@, pos as int) {
            Ok((sp, np)) => r matches Ok((inp, p)) && inp@ == sp && p == np,
            Err(e) => r == Err::<(Input<'t>, usize), DecodeError>(e),
        },
{
    if s.len() - pos < 4 {
        return Err(DecodeError::Underflow);
    }
    let len = read_u32_be(s, pos);
    if len == NULL_ELEMENT_LENGTH {
        Ok((Input(None), pos + 4))
    } else {
        if len as usize > s.len() - (pos + 4) {
            return Err(DecodeError::Underflow);
        }
        let span = vstd::slice::slice_subrange(s, pos + 4, pos + 4 + len as usize);
        Ok((Input(Some(span)), pos + 4 + len as usize))
    }
}

pub fn read_array_element<'t>(s: &'t [u8], pos: usize) -> (r: Result<
    (&'t [u8], usize),
    DecodeError,
>)
    requires
        pos <= s@.len(),
    ensures
        match spec_array_element(s@, pos as int) {
            Ok((sp, np)) => r matches Ok((b, p)) && b@ == sp && p == np,
            Err(e) => r == Err::<(&'t [u8], usize), DecodeError>(e),
        },
{
    if s.len() - pos < 4 {
        return Err(DecodeError::Underflow);
    }
    let len = read_u32_be(s, pos);
    if len as usize > s.len() - (pos + 4) {
        return Err(DecodeError::Underflow);
    }
    let span = vstd::slice::slice_subrange(s, pos + 4, pos + 4 + len as usize);
    Ok((span, pos + 4 + len as usize))
}

pub fn read_count_header(s: &[u8]) -> (r: Result<u32, DecodeError>)
    ensures
        r == spec_count_header(s@),
{
    if s.len() < 4 {
        return Err(DecodeError::Underflow);
    }
    proof {
        assert(s@.subrange(0, 4) =~= s@.subrange(0int, 0int + 4));
    }
    Ok(read_u32_be(s, 0))
}

pub fn read_array_header(s: &[u8]) -> (r: Result<(u64, usize), DecodeError>)
    ensures
        match spec_array_header(s@) {
            Ok((count, off)) => r matches Ok((c, p)) && c == count && p == off,
            Err(e) => r == Err::<(u64, usize), DecodeError>(e),
        },
{
    if s.len() < 12 {
        return Err(DecodeError::Underflow);
    }
    proof {
        assert(s@.subrange(0, 4) =~= s@.subrange(0int, 0int + 4));
    }
    let ndims = read_u32_be(s, 0);
    if ndims == 0 {
        return Ok((0, 12));
    }
    if ndims != 1 {
        return Err(DecodeError::InvalidArrayShape);
    }
    if s.len() < 20 {
        return Err(DecodeError::Underflow);
    }
    let upper = read_u32_be(s, 12);
    let lower = read_u32_be(s, 16);
    let count = (upper as i64) - (lower as i64) + 1;
    if count < 0 {
        Ok((0, 20))
    } else {
        Ok((count as u64, 20))
    }
}

} // verus!
