//! Big-endian wire encodings of the fixed-width integers, as byte sequences,
//! together with the executable readers and writers and their inverse lemmas.
use vstd::prelude::*;

verus! {

// ---------------------------------------------------------------------------
// Specification: big-endian byte sequences.
// ---------------------------------------------------------------------------
pub open spec fn spec_u16_be(x: u16) -> Seq<u8> {
    seq![((x >> 8) & 0xff) as u8, (x & 0xff) as u8]
}

pub open spec fn spec_u32_be(x: u32) -> Seq<u8> {
    seq![
        ((x >> 24) & 0xff) as u8,
        ((x >> 16) & 0xff) as u8,
        ((x >> 8) & 0xff) as u8,
        (x & 0xff) as u8,
    ]
}

pub open spec fn spec_u64_be(x: u64) -> Seq<u8> {
    seq![
        ((x >> 56) & 0xff) as u8,
        ((x >> 48) & 0xff) as u8,
        ((x >> 40) & 0xff) as u8,
        ((x >> 32) & 0xff) as u8,
        ((x >> 24) & 0xff) as u8,
        ((x >> 16) & 0xff) as u8,
        ((x >> 8) & 0xff) as u8,
        (x & 0xff) as u8,
    ]
}

pub open spec fn spec_u128_be(x: u128) -> Seq<u8> {
    seq![
        ((x >> 120) & 0xff) as u8,
        ((x >> 112) & 0xff) as u8,
        ((x >> 104) & 0xff) as u8,
        ((x >> 96) & 0xff) as u8,
        ((x >> 88) & 0xff) as u8,
        ((x >> 80) & 0xff) as u8,
        ((x >> 72) & 0xff) as u8,
        ((x >> 64) & 0xff) as u8,
        ((x >> 56) & 0xff) as u8,
        ((x >> 48) & 0xff) as u8,
        ((x >> 40) & 0xff) as u8,
        ((x >> 32) & 0xff) as u8,
        ((x >> 24) & 0xff) as u8,
        ((x >> 16) & 0xff) as u8,
        ((x >> 8) & 0xff) as u8,
        (x & 0xff) as u8,
    ]
}

pub open spec fn spec_u16_from_be(s: Seq<u8>) -> u16
    recommends
        s.len() == 2,
{
    ((s[0] as u16) << 8) | (s[1] as u16)
}

pub open spec fn spec_u32_from_be(s: Seq<u8>) -> u32
    recommends
        s.len() == 4,
{
    ((s[0] as u32) << 24) | ((s[1] as u32) << 16) | ((s[2] as u32) << 8) | (s[3] as u32)
}

pub open spec fn spec_u64_from_be(s: Seq<u8>) -> u64
    recommends
        s.len() == 8,
{
    ((s[0] as u64) << 56) | ((s[1] as u64) << 48) | ((s[2] as u64) << 40) | ((s[3] as u64) << 32)
        | ((s[4] as u64) << 24) | ((s[5] as u64) << 16) | ((s[6] as u64) << 8) | (s[7] as u64)
}

pub open spec fn spec_u128_from_be(s: Seq<u8>) -> u128
    recommends
        s.len() == 16,
{
    ((s[0] as u128) << 120) | ((s[1] as u128) << 112) | ((s[2] as u128) << 104) | ((s[3] as u128)
        << 96) | ((s[4] as u128) << 88) | ((s[5] as u128) << 80) | ((s[6] as u128) << 72) | ((
    s[7] as u128) << 64) | ((s[8] as u128) << 56) | ((s[9] as u128) << 48) | ((s[10] as u128) << 40)
        | ((s[11] as u128) << 32) | ((s[12] as u128) << 24) | ((s[13] as u128) << 16) | ((
    s[14] as u128) << 8) | (s[15] as u128)
}

// Signed values travel as their two's-complement bit pattern.
pub open spec fn spec_i16_be(x: i16) -> Seq<u8> {
    spec_u16_be(x as u16)
}

pub open spec fn spec_i32_be(x: i32) -> Seq<u8> {
    spec_u32_be(x as u32)
}

pub open spec fn spec_i64_be(x: i64) -> Seq<u8> {
    spec_u64_be(x as u64)
}

pub open spec fn spec_i16_from_be(s: Seq<u8>) -> i16 {
    spec_u16_from_be(s) as i16
}

pub open spec fn spec_i32_from_be(s: Seq<u8>) -> i32 {
    spec_u32_from_be(s) as i32
}

pub open spec fn spec_i64_from_be(s: Seq<u8>) -> i64 {
    spec_u64_from_be(s) as i64
}

// ---------------------------------------------------------------------------
// Round-trip lemmas.
// ---------------------------------------------------------------------------
pub proof fn lemma_u16_be_round_trip(x: u16)
    ensures
        spec_u16_be(x).len() == 2,
        spec_u16_from_be(spec_u16_be(x)) == x,
{
    assert((((((x >> 8) & 0xff) as u8) as u16) << 8) | (((x & 0xff) as u8) as u16) == x)
        by (bit_vector);
}

pub proof fn lemma_u32_be_round_trip(x: u32)
    ensures
        spec_u32_be(x).len() == 4,
        spec_u32_from_be(spec_u32_be(x)) == x,
{
    assert(((((x >> 24) & 0xff) as u8 as u32) << 24) | ((((x >> 16) & 0xff) as u8 as u32) << 16) | (
    (((x >> 8) & 0xff) as u8 as u32) << 8) | ((x & 0xff) as u8 as u32) == x) by (bit_vector);
}

pub proof fn lemma_u64_be_round_trip(x: u64)
    ensures
        spec_u64_be(x).len() == 8,
        spec_u64_from_be(spec_u64_be(x)) == x,
{
    assert(((((x >> 56) & 0xff) as u8 as u64) << 56) | ((((x >> 48) & 0xff) as u8 as u64) << 48) | (
    (((x >> 40) & 0xff) as u8 as u64) << 40) | ((((x >> 32) & 0xff) as u8 as u64) << 32) | ((((x
        >> 24) & 0xff) as u8 as u64) << 24) | ((((x >> 16) & 0xff) as u8 as u64) << 16) | ((((x
        >> 8) & 0xff) as u8 as u64) << 8) | ((x & 0xff) as u8 as u64) == x) by (bit_vector);
}

pub proof fn lemma_u128_be_round_trip(x: u128)
    ensures
        spec_u128_be(x).len() == 16,
        spec_u128_from_be(spec_u128_be(x)) == x,
{
    assert(((((x >> 120) & 0xff) as u8 as u128) << 120) | ((((x >> 112) & 0xff) as u8 as u128)
        << 112) | ((((x >> 104) & 0xff) as u8 as u128) << 104) | ((((x >> 96) & 0xff) as u8 as u128)
        << 96) | ((((x >> 88) & 0xff) as u8 as u128) << 88) | ((((x >> 80) & 0xff) as u8 as u128)
        << 80) | ((((x >> 72) & 0xff) as u8 as u128) << 72) | ((((x >> 64) & 0xff) as u8 as u128)
        << 64) | ((((x >> 56) & 0xff) as u8 as u128) << 56) | ((((x >> 48) & 0xff) as u8 as u128)
        << 48) | ((((x >> 40) & 0xff) as u8 as u128) << 40) | ((((x >> 32) & 0xff) as u8 as u128)
        << 32) | ((((x >> 24) & 0xff) as u8 as u128) << 24) | ((((x >> 16) & 0xff) as u8 as u128)
        << 16) | ((((x >> 8) & 0xff) as u8 as u128) << 8) | ((x & 0xff) as u8 as u128) == x)
        by (bit_vector);
}

pub proof fn lemma_i16_be_round_trip(x: i16)
    ensures
        spec_i16_be(x).len() == 2,
        spec_i16_from_be(spec_i16_be(x)) == x,
{
    lemma_u16_be_round_trip(x as u16);
    assert(((x as u16) as i16) == x) by (bit_vector);
}

pub proof fn lemma_i32_be_round_trip(x: i32)
    ensures
        spec_i32_be(x).len() == 4,
        spec_i32_from_be(spec_i32_be(x)) == x,
{
    lemma_u32_be_round_trip(x as u32);
    assert(((x as u32) as i32) == x) by (bit_vector);
}

pub proof fn lemma_i64_be_round_trip(x: i64)
    ensures
        spec_i64_be(x).len() == 8,
        spec_i64_from_be(spec_i64_be(x)) == x,
{
    lemma_u64_be_round_trip(x as u64);
    assert(((x as u64) as i64) == x) by (bit_vector);
}

// ---------------------------------------------------------------------------
// Executable writers: append the encoding of a value to a byte vector.
// ---------------------------------------------------------------------------
pub fn push_u16_be(out: &mut Vec<u8>, x: u16)
    ensures
        final(out)@ == old(out)@ + spec_u16_be(x),
{
    proof {
        assert((x >> 8) & 0xff < 256 && x & 0xff < 256) by (bit_vector);
    }
    out.push(((x >> 8) & 0xff) as u8);
    out.push((x & 0xff) as u8);
    proof {
        assert(out@ =~= old(out)@ + spec_u16_be(x));
    }
}

pub fn push_u32_be(out: &mut Vec<u8>, x: u32)
    ensures
        final(out)@ == old(out)@ + spec_u32_be(x),
{
    proof {
        assert((x >> 24) & 0xff < 256 && (x >> 16) & 0xff < 256 && (x >> 8) & 0xff < 256 && x & 0xff
            < 256) by (bit_vector);
    }
    out.push(((x >> 24) & 0xff) as u8);
    out.push(((x >> 16) & 0xff) as u8);
    out.push(((x >> 8) & 0xff) as u8);
    out.push((x & 0xff) as u8);
    proof {
        assert(out@ =~= old(out)@ + spec_u32_be(x));
    }
}

pub fn push_u64_be(out: &mut Vec<u8>, x: u64)
    ensures
        final(out)@ == old(out)@ + spec_u64_be(x),
{
    proof {
        assert((x >> 56) & 0xff < 256 && (x >> 48) & 0xff < 256 && (x >> 40) & 0xff < 256 && (x
            >> 32) & 0xff < 256 && (x >> 24) & 0xff < 256 && (x >> 16) & 0xff < 256 && (x >> 8)
            & 0xff < 256 && x & 0xff < 256) by (bit_vector);
    }
    out.push(((x >> 56) & 0xff) as u8);
    out.push(((x >> 48) & 0xff) as u8);
    out.push(((x >> 40) & 0xff) as u8);
    out.push(((x >> 32) & 0xff) as u8);
    out.push(((x >> 24) & 0xff) as u8);
    out.push(((x >> 16) & 0xff) as u8);
    out.push(((x >> 8) & 0xff) as u8);
    out.push((x & 0xff) as u8);
    proof {
        assert(out@ =~= old(out)@ + spec_u64_be(x));
    }
}

pub fn push_u128_be(out: &mut Vec<u8>, x: u128)
    ensures
        final(out)@ == old(out)@ + spec_u128_be(x),
{
    proof {
        assert((x >> 120) & 0xff < 256 && (x >> 112) & 0xff < 256 && (x >> 104) & 0xff < 256 && (x
            >> 96) & 0xff < 256 && (x >> 88) & 0xff < 256 && (x >> 80) & 0xff < 256 && (x >> 72)
            & 0xff < 256 && (x >> 64) & 0xff < 256 && (x >> 56) & 0xff < 256 && (x >> 48) & 0xff
            < 256 && (x >> 40) & 0xff < 256 && (x >> 32) & 0xff < 256 && (x >> 24) & 0xff < 256 && (
        x >> 16) & 0xff < 256 && (x >> 8) & 0xff < 256 && x & 0xff < 256) by (bit_vector);
    }
    out.push(((x >> 120) & 0xff) as u8);
    out.push(((x >> 112) & 0xff) as u8);
    out.push(((x >> 104) & 0xff) as u8);
    out.push(((x >> 96) & 0xff) as u8);
    out.push(((x >> 88) & 0xff) as u8);
    out.push(((x >> 80) & 0xff) as u8);
    out.push(((x >> 72) & 0xff) as u8);
    out.push(((x >> 64) & 0xff) as u8);
    out.push(((x >> 56) & 0xff) as u8);
    out.push(((x >> 48) & 0xff) as u8);
    out.push(((x >> 40) & 0xff) as u8);
    out.push(((x >> 32) & 0xff) as u8);
    out.push(((x >> 24) & 0xff) as u8);
    out.push(((x >> 16) & 0xff) as u8);
    out.push(((x >> 8) & 0xff) as u8);
    out.push((x & 0xff) as u8);
    proof {
        assert(out@ =~= old(out)@ + spec_u128_be(x));
    }
}

pub fn push_i16_be(out: &mut Vec<u8>, x: i16)
    ensures
        final(out)@ == old(out)@ + spec_i16_be(x),
{
    push_u16_be(out, #[verifier::truncate] (x as u16));
}

pub fn push_i32_be(out: &mut Vec<u8>, x: i32)
    ensures
        final(out)@ == old(out)@ + spec_i32_be(x),
{
    push_u32_be(out, #[verifier::truncate] (x as u32));
}

pub fn push_i64_be(out: &mut Vec<u8>, x: i64)
    ensures
        final(out)@ == old(out)@ + spec_i64_be(x),
{
    push_u64_be(out, #[verifier::truncate] (x as u64));
}

// ---------------------------------------------------------------------------
// Executable readers: read one value from a slice at a given offset.
// ---------------------------------------------------------------------------
pub fn read_u16_be(s: &[u8], off: usize) -> (r: u16)
    requires
        off + 2 <= s@.len(),
    ensures
        r == spec_u16_from_be(s@.subrange(off as int, off as int + 2)),
{
    let b = s[off];
    let b1 = s[off + 1];
    proof {
        let sub = s@.subrange(off as int, off as int + 2);
        assert(sub[0] == s@[off as int] && sub[1] == s@[off as int + 1]);
    }
    ((b as u16) << 8) | (b1 as u16)
}

pub fn read_u32_be(s: &[u8], off: usize) -> (r: u32)
    requires
        off + 4 <= s@.len(),
    ensures
        r == spec_u32_from_be(s@.subrange(off as int, off as int + 4)),
{
    let b0 = s[off];
    let b1 = s[off + 1];
    let b2 = s[off + 2];
    let b3 = s[off + 3];
    proof {
        let sub = s@.subrange(off as int, off as int + 4);
        assert(sub[0] == s@[off as int] && sub[1] == s@[off as int + 1] && sub[2] == s@[off as int
            + 2] && sub[3] == s@[off as int + 3]);
    }
    ((b0 as u32) << 24) | ((b1 as u32) << 16) | ((b2 as u32) << 8) | (b3 as u32)
}

pub fn read_u64_be(s: &[u8], off: usize) -> (r: u64)
    requires
        off + 8 <= s@.len(),
    ensures
        r == spec_u64_from_be(s@.subrange(off as int, off as int + 8)),
{
    let b0 = s[off];
    let b1 = s[off + 1];
    let b2 = s[off + 2];
    let b3 = s[off + 3];
    let b4 = s[off + 4];
    let b5 = s[off + 5];
    let b6 = s[off + 6];
    let b7 = s[off + 7];
    proof {
        let sub = s@.subrange(off as int, off as int + 8);
        assert(sub[0] == s@[off as int] && sub[1] == s@[off as int + 1] && sub[2] == s@[off as int
            + 2] && sub[3] == s@[off as int + 3] && sub[4] == s@[off as int + 4] && sub[5] == s@[
        off as int + 5] && sub[6] == s@[off as int + 6] && sub[7] == s@[off as int + 7]);
    }
    ((b0 as u64) << 56) | ((b1 as u64) << 48) | ((b2 as u64) << 40) | ((b3 as u64) << 32) | ((
    b4 as u64) << 24) | ((b5 as u64) << 16) | ((b6 as u64) << 8) | (b7 as u64)
}

pub fn read_u128_be(s: &[u8], off: usize) -> (r: u128)
    requires
        off + 16 <= s@.len(),
    ensures
        r == spec_u128_from_be(s@.subrange(off as int, off as int + 16)),
{
    let b0 = s[off];
    let b1 = s[off + 1];
    let b2 = s[off + 2];
    let b3 = s[off + 3];
    let b4 = s[off + 4];
    let b5 = s[off + 5];
    let b6 = s[off + 6];
    let b7 = s[off + 7];
    let b8 = s[off + 8];
    let b9 = s[off + 9];
    let b10 = s[off + 10];
    let b11 = s[off + 11];
    let b12 = s[off + 12];
    let b13 = s[off + 13];
    let b14 = s[off + 14];
    let b15 = s[off + 15];
    proof {
        let sub = s@.subrange(off as int, off as int + 16);
        assert(forall|i: int| 0 <= i < 16 ==> sub[i] == s@[off as int + i]);
    }
    ((b0 as u128) << 120) | ((b1 as u128) << 112) | ((b2 as u128) << 104) | ((b3 as u128) << 96) | (
    (b4 as u128) << 88) | ((b5 as u128) << 80) | ((b6 as u128) << 72) | ((b7 as u128) << 64) | ((
    b8 as u128) << 56) | ((b9 as u128) << 48) | ((b10 as u128) << 40) | ((b11 as u128) << 32) | ((
    b12 as u128) << 24) | ((b13 as u128) << 16) | ((b14 as u128) << 8) | (b15 as u128)
}

pub fn read_i16_be(s: &[u8], off: usize) -> (r: i16)
    requires
        off + 2 <= s@.len(),
    ensures
        r == spec_i16_from_be(s@.subrange(off as int, off as int + 2)),
{
    #[verifier::truncate] (read_u16_be(s, off) as i16)
}

pub fn read_i32_be(s: &[u8], off: usize) -> (r: i32)
    requires
        off + 4 <= s@.len(),
    ensures
        r == spec_i32_from_be(s@.subrange(off as int, off as int + 4)),
{
    #[verifier::truncate] (read_u32_be(s, off) as i32)
}

pub fn read_i64_be(s: &[u8], off: usize) -> (r: i64)
    requires
        off + 8 <= s@.len(),
    ensures
        r == spec_i64_from_be(s@.subrange(off as int, off as int + 8)),
{
    #[verifier::truncate] (read_u64_be(s, off) as i64)
}

} // verus!
