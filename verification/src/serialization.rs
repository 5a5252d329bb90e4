//! The byte span handed to a decoder (possibly absent, for a null element)
//! and the growable, position-addressable buffer an encoder writes into. The
//! buffer is the `bytes` crate's `BytesMut`, held behind a trusted surface of
//! append, in-place overwrite, length and read-out.
use vstd::prelude::*;
use bytes::BytesMut;
use crate::errors::DecodeError;
use crate::wire::{
    spec_i16_be, spec_i32_be, spec_i64_be, spec_u128_be, spec_u16_be, spec_u32_be, spec_u64_be,
    push_i16_be, push_i32_be, push_i64_be, push_u128_be, push_u16_be, push_u32_be, push_u64_be,
};

verus! {

/// Declares the `bytes` crate's growable byte buffer, so that it can stand
/// in fields and signatures; its contents are reached only through
/// `bytes_mut_view` and the trusted calls below.
#[verifier::external_type_specification]
#[verifier::external_body]
pub struct ExBytesMut(BytesMut);

/// What the buffer holds, as a byte sequence.
pub uninterp spec fn bytes_mut_view(b: BytesMut) -> Seq<u8>;

/// Relies on `bytes::BytesMut::new`: the new buffer has length zero.
#[verifier::external_body]
fn bytes_mut_new() -> (r: BytesMut)
    ensures
        bytes_mut_view(r) == Seq::<u8>::empty(),
{
    BytesMut::new()
}

/// Relies on `bytes::BytesMut::len`: the number of bytes the buffer holds.
#[verifier::external_body]
fn bytes_mut_len(b: &BytesMut) -> (r: usize)
    ensures
        r == bytes_mut_view(*b).len(),
{
    b.len()
}

/// Relies on `bytes::BytesMut::extend_from_slice`: appends the slice's bytes.
#[verifier::external_body]
fn bytes_mut_extend(b: &mut BytesMut, src: &[u8])
    ensures
        bytes_mut_view(*final(b)) == bytes_mut_view(*old(b)) + src@,
{
    b.extend_from_slice(src);
}

/// Relies on `bytes::BytesMut`'s `DerefMut` to `[u8]` and the slice's
/// `copy_from_slice`: overwrites bytes in place, starting at `pos`.
#[verifier::external_body]
fn bytes_mut_patch(b: &mut BytesMut, pos: usize, src: &[u8])
    requires
        pos + src@.len() <= bytes_mut_view(*old(b)).len(),
    ensures
        bytes_mut_view(*final(b)) == bytes_mut_view(*old(b)).take(pos as int) + src@ + bytes_mut_view(
            *old(b),
        ).skip(pos as int + src@.len()),
{
    b[pos..pos + src.len()].copy_from_slice(src);
}

/// Relies on `bytes::BytesMut`'s `Deref` to `[u8]`: the buffer's bytes.
#[verifier::external_body]
fn bytes_mut_as_slice(b: &BytesMut) -> (r: &[u8])
    ensures
        r@ == bytes_mut_view(*b),
{
    &b[..]
}

/// The output buffer of one in-flight encode call: append at the end, plus
/// in-place overwrite of already-written placeholder bytes.
pub struct Output {
    buf: BytesMut,
}

impl View for Output {
    type V = Seq<u8>;

    closed spec fn view(&self) -> Seq<u8> {
        bytes_mut_view(self.buf)
    }
}

impl Output {
    pub fn new() -> (r: Output)
        ensures
            r@ == Seq::<u8>::empty(),
    {
        Output { buf: bytes_mut_new() }
    }

    pub fn len(&self) -> (r: usize)
        ensures
            r == self@.len(),
    {
        bytes_mut_len(&self.buf)
    }

    /// The bytes written so far.
    pub fn as_slice(&self) -> (r: &[u8])
        ensures
            r@ == self@,
    {
        bytes_mut_as_slice(&self.buf)
    }

    /// Appends raw bytes.
    pub fn extend(&mut self, src: &[u8])
        ensures
            final(self)@ == old(self)@ + src@,
    {
        bytes_mut_extend(&mut self.buf, src);
    }

    pub fn put_u8(&mut self, x: u8)
        ensures
            final(self)@ == old(self)@ + seq![x],
    {
        let tmp: [u8; 1] = [x];
        bytes_mut_extend(&mut self.buf, tmp.as_slice());
        proof {
            assert(old(self)@ + tmp@ =~= old(self)@ + seq![x]);
        }
    }

    pub fn put_u16(&mut self, x: u16)
        ensures
            final(self)@ == old(self)@ + spec_u16_be(x),
    {
        let mut tmp: Vec<u8> = Vec::new();
        push_u16_be(&mut tmp, x);
        bytes_mut_extend(&mut self.buf, tmp.as_slice());
    }

    pub fn put_i16(&mut self, x: i16)
        ensures
            final(self)@ == old(self)@ + spec_i16_be(x),
    {
        let mut tmp: Vec<u8> = Vec::new();
        push_i16_be(&mut tmp, x);
        bytes_mut_extend(&mut self.buf, tmp.as_slice());
    }

    pub fn put_u32(&mut self, x: u32)
        ensures
            final(self)@ == old(self)@ + spec_u32_be(x),
    {
        let mut tmp: Vec<u8> = Vec::new();
        push_u32_be(&mut tmp, x);
        bytes_mut_extend(&mut self.buf, tmp.as_slice());
    }

    pub fn put_i32(&mut self, x: i32)
        ensures
            final(self)@ == old(self)@ + spec_i32_be(x),
    {
        let mut tmp: Vec<u8> = Vec::new();
        push_i32_be(&mut tmp, x);
        bytes_mut_extend(&mut self.buf, tmp.as_slice());
    }

    pub fn put_u64(&mut self, x: u64)
        ensures
            final(self)@ == old(self)@ + spec_u64_be(x),
    {
        let mut tmp: Vec<u8> = Vec::new();
        push_u64_be(&mut tmp, x);
        bytes_mut_extend(&mut self.buf, tmp.as_slice());
    }

    pub fn put_i64(&mut self, x: i64)
        ensures
            final(self)@ == old(self)@ + spec_i64_be(x),
    {
        let mut tmp: Vec<u8> = Vec::new();
        push_i64_be(&mut tmp, x);
        bytes_mut_extend(&mut self.buf, tmp.as_slice());
    }

    pub fn put_u128(&mut self, x: u128)
        ensures
            final(self)@ == old(self)@ + spec_u128_be(x),
    {
        let mut tmp: Vec<u8> = Vec::new();
        push_u128_be(&mut tmp, x);
        bytes_mut_extend(&mut self.buf, tmp.as_slice());
    }

    /// Overwrites the four bytes at `pos` with the big-endian encoding of
    /// `x`: the placeholder patch of the streaming container encoders.
    pub fn patch_u32_at(&mut self, pos: usize, x: u32)
        requires
            pos + 4 <= old(self)@.len(),
        ensures
            final(self)@ == old(self)@.take(pos as int) + spec_u32_be(x) + old(self)@.skip(
                pos as int + 4,
            ),
            final(self)@.len() == old(self)@.len(),
    {
        let mut tmp: Vec<u8> = Vec::new();
        push_u32_be(&mut tmp, x);
        bytes_mut_patch(&mut self.buf, pos, tmp.as_slice());
        proof {
            crate::wire::lemma_u32_be_round_trip(x);
        }
    }
}

/// The byte span of one value to decode: `None` stands for the null sentinel
/// of an absent element.
pub struct Input<'t>(pub Option<&'t [u8]>);

impl<'t> View for Input<'t> {
    type V = Option<Seq<u8>>;

    open spec fn view(&self) -> Option<Seq<u8>> {
        match self.0 {
            Some(s) => Some(s@),
            None => None,
        }
    }
}

impl<'t> Input<'t> {
    pub fn new(bytes: &'t [u8]) -> (r: Input<'t>)
        ensures
            r@ == Some(bytes@),
    {
        Input(Some(bytes))
    }

    /// The span's bytes; an absent element is a missing required element.
    pub fn bytes(self) -> (r: Result<&'t [u8], DecodeError>)
        ensures
            match self@ {
                Some(s) => r matches Ok(b) && b@ == s,
                None => r == Err::<&[u8], DecodeError>(DecodeError::MissingRequiredElement),
            },
    {
        match self.0 {
            Some(b) => Ok(b),
            None => Err(DecodeError::MissingRequiredElement),
        }
    }
}

} // verus!
