//! Encoding side of the composite framing: streaming, single-pass writing
//! with placeholder length words that are patched in place once an element's
//! true byte length is known.
use vstd::prelude::*;
use crate::decode_composite::NULL_ELEMENT_LENGTH;
use crate::errors::EncodeError;
use crate::serialization::Output;
use crate::wire::spec_u32_be;

verus! {

/// The longest element payload the length word can carry: one less than the
/// all-ones word, which is the null sentinel.
pub const MAX_ELEMENT_LENGTH: u32 = 0xffff_fffe;

/// The null sentinel of an absent tuple-like element in server-to-client
/// framing: a zero reserved word, then the all-ones length.
pub open spec fn spec_null_element() -> Seq<u8> {
    spec_u32_be(0u32) + spec_u32_be(NULL_ELEMENT_LENGTH)
}

/// Writes the null sentinel for an absent element.
pub fn write_null(out: &mut Output)
    ensures
        final(out)@ == old(out)@ + spec_null_element(),
{
    out.put_u32(0);
    out.put_u32(NULL_ELEMENT_LENGTH);
    proof {
        assert(final(out)@ =~= old(out)@ + spec_null_element());
    }
}

/// Opens one length-prefixed element: writes the zero placeholder and
/// remembers its position for the patch.
pub fn begin_length(out: &mut Output) -> (pos: usize)
    ensures
        final(out)@ == old(out)@ + spec_u32_be(0u32),
        pos == old(out)@.len(),
{
    let pos = out.len();
    out.put_u32(0);
    pos
}

/// Closes one length-prefixed element: patches the placeholder at `pos` with
/// the count of bytes written since, or rejects an element too long for the
/// length word. Nothing changes on the error path.
pub fn finish_length(out: &mut Output, pos: usize) -> (r: Result<(), EncodeError>)
    requires
        pos + 4 <= old(out)@.len(),
    ensures
        ({
            let payload_len = old(out)@.len() - (pos + 4);
            if payload_len <= MAX_ELEMENT_LENGTH {
                r is Ok && final(out)@ == old(out)@.take(pos as int) + spec_u32_be(
                    payload_len as u32,
                ) + old(out)@.skip(pos as int + 4)
            } else {
                r == Err::<(), EncodeError>(EncodeError::ElementTooLong) && final(out)@ == old(
                    out,
                )@
            }
        }),
{
    let end = out.len();
    let payload_len = end - (pos + 4);
    if payload_len > MAX_ELEMENT_LENGTH as usize {
        return Err(EncodeError::ElementTooLong);
    }
    out.patch_u32_at(pos, payload_len as u32);
    Ok(())
}

} // verus!
