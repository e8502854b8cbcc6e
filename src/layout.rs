//! The byte layout of the header: every field little-endian, in declaration
//! order, with no padding between fields.
use vstd::prelude::*;
use crate::error::{Error, ErrorKind, Result};
use crate::header::{B2BHeader, BitmapV5Header, CompactOptionalDigest, Header};

verus! {

/// Size in bytes of an encoded header.
pub const HEADER_BYTES: usize = 178;

/// The 2 little-endian bytes of `x`.
pub open spec fn le_u16(x: u16) -> Seq<u8> {
    seq![x as u8, (x >> 8) as u8]
}

/// The integer held little-endian in `b[at..at + 2]`.
pub open spec fn u16_at(b: Seq<u8>, at: int) -> u16 {
    (b[at] as u16) | ((b[at + 1] as u16) << 8)
}

proof fn lemma_u16_decode_encode(x: u16)
    ensures
        ((x as u8) as u16) | ((((x >> 8) as u8) as u16) << 8) == x,
{
    assert(((x as u8) as u16) | ((((x >> 8) as u8) as u16) << 8) == x) by (bit_vector);
}

proof fn lemma_u16_encode_decode(b0: u8, b1: u8)
    ensures
        ((b0 as u16) | ((b1 as u16) << 8)) as u8 == b0,
        (((b0 as u16) | ((b1 as u16) << 8)) >> 8) as u8 == b1,
{
    let r = (b0 as u16) | ((b1 as u16) << 8);
    assert(r as u8 == b0 && (r >> 8) as u8 == b1) by (bit_vector)
        requires r == (b0 as u16) | ((b1 as u16) << 8);
}

/// Reading back the bytes of `x` at `at` gives `x`.
pub proof fn lemma_u16_read_back(b: Seq<u8>, at: int, x: u16)
    requires
        0 <= at, at + 2 <= b.len(),
        b.subrange(at, at + 2) == le_u16(x),
    ensures
        u16_at(b, at) == x,
{
    assert(b[at + 0] == b.subrange(at, at + 2)[0]);
    assert(b[at + 1] == b.subrange(at, at + 2)[1]);
    lemma_u16_decode_encode(x);
}

/// The bytes at `at` are the encoding of the integer read there.
pub proof fn lemma_u16_bytes(b: Seq<u8>, at: int)
    requires
        0 <= at, at + 2 <= b.len(),
    ensures
        b.subrange(at, at + 2) == le_u16(u16_at(b, at)),
{
    lemma_u16_encode_decode(b[at + 0], b[at + 1]);
    assert(b.subrange(at, at + 2) =~= le_u16(u16_at(b, at)));
}

fn push_u16(v: &mut Vec<u8>, x: u16)
    ensures
        final(v)@ == old(v)@ + le_u16(x),
{
    v.push(x as u8);
    v.push((x >> 8) as u8);
    assert(final(v)@ =~= old(v)@ + le_u16(x));
}

fn read_u16(b: &[u8], at: usize) -> (r: u16)
    requires
        at + 2 <= b@.len(),
    ensures
        r == u16_at(b@, at as int),
{
    (b[at] as u16) | ((b[at + 1] as u16) << 8)
}

/// The 4 little-endian bytes of `x`.
pub open spec fn le_u32(x: u32) -> Seq<u8> {
    seq![x as u8, (x >> 8) as u8, (x >> 16) as u8, (x >> 24) as u8]
}

/// The integer held little-endian in `b[at..at + 4]`.
pub open spec fn u32_at(b: Seq<u8>, at: int) -> u32 {
    (b[at] as u32) | ((b[at + 1] as u32) << 8) | ((b[at + 2] as u32) << 16) | ((b[at + 3] as u32) << 24)
}

proof fn lemma_u32_decode_encode(x: u32)
    ensures
        ((x as u8) as u32) | ((((x >> 8) as u8) as u32) << 8) | ((((x >> 16) as u8) as u32) << 16) | ((((x >> 24) as u8) as u32) << 24) == x,
{
    assert(((x as u8) as u32) | ((((x >> 8) as u8) as u32) << 8) | ((((x >> 16) as u8) as u32) << 16) | ((((x >> 24) as u8) as u32) << 24) == x) by (bit_vector);
}

proof fn lemma_u32_encode_decode(b0: u8, b1: u8, b2: u8, b3: u8)
    ensures
        ((b0 as u32) | ((b1 as u32) << 8) | ((b2 as u32) << 16) | ((b3 as u32) << 24)) as u8 == b0,
        (((b0 as u32) | ((b1 as u32) << 8) | ((b2 as u32) << 16) | ((b3 as u32) << 24)) >> 8) as u8 == b1,
        (((b0 as u32) | ((b1 as u32) << 8) | ((b2 as u32) << 16) | ((b3 as u32) << 24)) >> 16) as u8 == b2,
        (((b0 as u32) | ((b1 as u32) << 8) | ((b2 as u32) << 16) | ((b3 as u32) << 24)) >> 24) as u8 == b3,
{
    let r = (b0 as u32) | ((b1 as u32) << 8) | ((b2 as u32) << 16) | ((b3 as u32) << 24);
    assert(r as u8 == b0 && (r >> 8) as u8 == b1 && (r >> 16) as u8 == b2 && (r >> 24) as u8 == b3) by (bit_vector)
        requires r == (b0 as u32) | ((b1 as u32) << 8) | ((b2 as u32) << 16) | ((b3 as u32) << 24);
}

/// Reading back the bytes of `x` at `at` gives `x`.
pub proof fn lemma_u32_read_back(b: Seq<u8>, at: int, x: u32)
    requires
        0 <= at, at + 4 <= b.len(),
        b.subrange(at, at + 4) == le_u32(x),
    ensures
        u32_at(b, at) == x,
{
    assert(b[at + 0] == b.subrange(at, at + 4)[0]);
    assert(b[at + 1] == b.subrange(at, at + 4)[1]);
    assert(b[at + 2] == b.subrange(at, at + 4)[2]);
    assert(b[at + 3] == b.subrange(at, at + 4)[3]);
    lemma_u32_decode_encode(x);
}

/// The bytes at `at` are the encoding of the integer read there.
pub proof fn lemma_u32_bytes(b: Seq<u8>, at: int)
    requires
        0 <= at, at + 4 <= b.len(),
    ensures
        b.subrange(at, at + 4) == le_u32(u32_at(b, at)),
{
    lemma_u32_encode_decode(b[at + 0], b[at + 1], b[at + 2], b[at + 3]);
    assert(b.subrange(at, at + 4) =~= le_u32(u32_at(b, at)));
}

fn push_u32(v: &mut Vec<u8>, x: u32)
    ensures
        final(v)@ == old(v)@ + le_u32(x),
{
    v.push(x as u8);
    v.push((x >> 8) as u8);
    v.push((x >> 16) as u8);
    v.push((x >> 24) as u8);
    assert(final(v)@ =~= old(v)@ + le_u32(x));
}

fn read_u32(b: &[u8], at: usize) -> (r: u32)
    requires
        at + 4 <= b@.len(),
    ensures
        r == u32_at(b@, at as int),
{
    (b[at] as u32) | ((b[at + 1] as u32) << 8) | ((b[at + 2] as u32) << 16) | ((b[at + 3] as u32) << 24)
}

/// The 16 little-endian bytes of `x`.
pub open spec fn le_u128(x: u128) -> Seq<u8> {
    seq![x as u8, (x >> 8) as u8, (x >> 16) as u8, (x >> 24) as u8, (x >> 32) as u8, (x >> 40) as u8, (x >> 48) as u8, (x >> 56) as u8, (x >> 64) as u8, (x >> 72) as u8, (x >> 80) as u8, (x >> 88) as u8, (x >> 96) as u8, (x >> 104) as u8, (x >> 112) as u8, (x >> 120) as u8]
}

/// The integer held little-endian in `b[at..at + 16]`.
pub open spec fn u128_at(b: Seq<u8>, at: int) -> u128 {
    (b[at] as u128) | ((b[at + 1] as u128) << 8) | ((b[at + 2] as u128) << 16) | ((b[at + 3] as u128) << 24) | ((b[at + 4] as u128) << 32) | ((b[at + 5] as u128) << 40) | ((b[at + 6] as u128) << 48) | ((b[at + 7] as u128) << 56) | ((b[at + 8] as u128) << 64) | ((b[at + 9] as u128) << 72) | ((b[at + 10] as u128) << 80) | ((b[at + 11] as u128) << 88) | ((b[at + 12] as u128) << 96) | ((b[at + 13] as u128) << 104) | ((b[at + 14] as u128) << 112) | ((b[at + 15] as u128) << 120)
}

proof fn lemma_u128_decode_encode(x: u128)
    ensures
        ((x as u8) as u128) | ((((x >> 8) as u8) as u128) << 8) | ((((x >> 16) as u8) as u128) << 16) | ((((x >> 24) as u8) as u128) << 24) | ((((x >> 32) as u8) as u128) << 32) | ((((x >> 40) as u8) as u128) << 40) | ((((x >> 48) as u8) as u128) << 48) | ((((x >> 56) as u8) as u128) << 56) | ((((x >> 64) as u8) as u128) << 64) | ((((x >> 72) as u8) as u128) << 72) | ((((x >> 80) as u8) as u128) << 80) | ((((x >> 88) as u8) as u128) << 88) | ((((x >> 96) as u8) as u128) << 96) | ((((x >> 104) as u8) as u128) << 104) | ((((x >> 112) as u8) as u128) << 112) | ((((x >> 120) as u8) as u128) << 120) == x,
{
    assert(((x as u8) as u128) | ((((x >> 8) as u8) as u128) << 8) | ((((x >> 16) as u8) as u128) << 16) | ((((x >> 24) as u8) as u128) << 24) | ((((x >> 32) as u8) as u128) << 32) | ((((x >> 40) as u8) as u128) << 40) | ((((x >> 48) as u8) as u128) << 48) | ((((x >> 56) as u8) as u128) << 56) | ((((x >> 64) as u8) as u128) << 64) | ((((x >> 72) as u8) as u128) << 72) | ((((x >> 80) as u8) as u128) << 80) | ((((x >> 88) as u8) as u128) << 88) | ((((x >> 96) as u8) as u128) << 96) | ((((x >> 104) as u8) as u128) << 104) | ((((x >> 112) as u8) as u128) << 112) | ((((x >> 120) as u8) as u128) << 120) == x) by (bit_vector);
}

proof fn lemma_u128_encode_decode(b0: u8, b1: u8, b2: u8, b3: u8, b4: u8, b5: u8, b6: u8, b7: u8, b8: u8, b9: u8, b10: u8, b11: u8, b12: u8, b13: u8, b14: u8, b15: u8)
    ensures
        ((b0 as u128) | ((b1 as u128) << 8) | ((b2 as u128) << 16) | ((b3 as u128) << 24) | ((b4 as u128) << 32) | ((b5 as u128) << 40) | ((b6 as u128) << 48) | ((b7 as u128) << 56) | ((b8 as u128) << 64) | ((b9 as u128) << 72) | ((b10 as u128) << 80) | ((b11 as u128) << 88) | ((b12 as u128) << 96) | ((b13 as u128) << 104) | ((b14 as u128) << 112) | ((b15 as u128) << 120)) as u8 == b0,
        (((b0 as u128) | ((b1 as u128) << 8) | ((b2 as u128) << 16) | ((b3 as u128) << 24) | ((b4 as u128) << 32) | ((b5 as u128) << 40) | ((b6 as u128) << 48) | ((b7 as u128) << 56) | ((b8 as u128) << 64) | ((b9 as u128) << 72) | ((b10 as u128) << 80) | ((b11 as u128) << 88) | ((b12 as u128) << 96) | ((b13 as u128) << 104) | ((b14 as u128) << 112) | ((b15 as u128) << 120)) >> 8) as u8 == b1,
        (((b0 as u128) | ((b1 as u128) << 8) | ((b2 as u128) << 16) | ((b3 as u128) << 24) | ((b4 as u128) << 32) | ((b5 as u128) << 40) | ((b6 as u128) << 48) | ((b7 as u128) << 56) | ((b8 as u128) << 64) | ((b9 as u128) << 72) | ((b10 as u128) << 80) | ((b11 as u128) << 88) | ((b12 as u128) << 96) | ((b13 as u128) << 104) | ((b14 as u128) << 112) | ((b15 as u128) << 120)) >> 16) as u8 == b2,
        (((b0 as u128) | ((b1 as u128) << 8) | ((b2 as u128) << 16) | ((b3 as u128) << 24) | ((b4 as u128) << 32) | ((b5 as u128) << 40) | ((b6 as u128) << 48) | ((b7 as u128) << 56) | ((b8 as u128) << 64) | ((b9 as u128) << 72) | ((b10 as u128) << 80) | ((b11 as u128) << 88) | ((b12 as u128) << 96) | ((b13 as u128) << 104) | ((b14 as u128) << 112) | ((b15 as u128) << 120)) >> 24) as u8 == b3,
        (((b0 as u128) | ((b1 as u128) << 8) | ((b2 as u128) << 16) | ((b3 as u128) << 24) | ((b4 as u128) << 32) | ((b5 as u128) << 40) | ((b6 as u128) << 48) | ((b7 as u128) << 56) | ((b8 as u128) << 64) | ((b9 as u128) << 72) | ((b10 as u128) << 80) | ((b11 as u128) << 88) | ((b12 as u128) << 96) | ((b13 as u128) << 104) | ((b14 as u128) << 112) | ((b15 as u128) << 120)) >> 32) as u8 == b4,
        (((b0 as u128) | ((b1 as u128) << 8) | ((b2 as u128) << 16) | ((b3 as u128) << 24) | ((b4 as u128) << 32) | ((b5 as u128) << 40) | ((b6 as u128) << 48) | ((b7 as u128) << 56) | ((b8 as u128) << 64) | ((b9 as u128) << 72) | ((b10 as u128) << 80) | ((b11 as u128) << 88) | ((b12 as u128) << 96) | ((b13 as u128) << 104) | ((b14 as u128) << 112) | ((b15 as u128) << 120)) >> 40) as u8 == b5,
        (((b0 as u128) | ((b1 as u128) << 8) | ((b2 as u128) << 16) | ((b3 as u128) << 24) | ((b4 as u128) << 32) | ((b5 as u128) << 40) | ((b6 as u128) << 48) | ((b7 as u128) << 56) | ((b8 as u128) << 64) | ((b9 as u128) << 72) | ((b10 as u128) << 80) | ((b11 as u128) << 88) | ((b12 as u128) << 96) | ((b13 as u128) << 104) | ((b14 as u128) << 112) | ((b15 as u128) << 120)) >> 48) as u8 == b6,
        (((b0 as u128) | ((b1 as u128) << 8) | ((b2 as u128) << 16) | ((b3 as u128) << 24) | ((b4 as u128) << 32) | ((b5 as u128) << 40) | ((b6 as u128) << 48) | ((b7 as u128) << 56) | ((b8 as u128) << 64) | ((b9 as u128) << 72) | ((b10 as u128) << 80) | ((b11 as u128) << 88) | ((b12 as u128) << 96) | ((b13 as u128) << 104) | ((b14 as u128) << 112) | ((b15 as u128) << 120)) >> 56) as u8 == b7,
        (((b0 as u128) | ((b1 as u128) << 8) | ((b2 as u128) << 16) | ((b3 as u128) << 24) | ((b4 as u128) << 32) | ((b5 as u128) << 40) | ((b6 as u128) << 48) | ((b7 as u128) << 56) | ((b8 as u128) << 64) | ((b9 as u128) << 72) | ((b10 as u128) << 80) | ((b11 as u128) << 88) | ((b12 as u128) << 96) | ((b13 as u128) << 104) | ((b14 as u128) << 112) | ((b15 as u128) << 120)) >> 64) as u8 == b8,
        (((b0 as u128) | ((b1 as u128) << 8) | ((b2 as u128) << 16) | ((b3 as u128) << 24) | ((b4 as u128) << 32) | ((b5 as u128) << 40) | ((b6 as u128) << 48) | ((b7 as u128) << 56) | ((b8 as u128) << 64) | ((b9 as u128) << 72) | ((b10 as u128) << 80) | ((b11 as u128) << 88) | ((b12 as u128) << 96) | ((b13 as u128) << 104) | ((b14 as u128) << 112) | ((b15 as u128) << 120)) >> 72) as u8 == b9,
        (((b0 as u128) | ((b1 as u128) << 8) | ((b2 as u128) << 16) | ((b3 as u128) << 24) | ((b4 as u128) << 32) | ((b5 as u128) << 40) | ((b6 as u128) << 48) | ((b7 as u128) << 56) | ((b8 as u128) << 64) | ((b9 as u128) << 72) | ((b10 as u128) << 80) | ((b11 as u128) << 88) | ((b12 as u128) << 96) | ((b13 as u128) << 104) | ((b14 as u128) << 112) | ((b15 as u128) << 120)) >> 80) as u8 == b10,
        (((b0 as u128) | ((b1 as u128) << 8) | ((b2 as u128) << 16) | ((b3 as u128) << 24) | ((b4 as u128) << 32) | ((b5 as u128) << 40) | ((b6 as u128) << 48) | ((b7 as u128) << 56) | ((b8 as u128) << 64) | ((b9 as u128) << 72) | ((b10 as u128) << 80) | ((b11 as u128) << 88) | ((b12 as u128) << 96) | ((b13 as u128) << 104) | ((b14 as u128) << 112) | ((b15 as u128) << 120)) >> 88) as u8 == b11,
        (((b0 as u128) | ((b1 as u128) << 8) | ((b2 as u128) << 16) | ((b3 as u128) << 24) | ((b4 as u128) << 32) | ((b5 as u128) << 40) | ((b6 as u128) << 48) | ((b7 as u128) << 56) | ((b8 as u128) << 64) | ((b9 as u128) << 72) | ((b10 as u128) << 80) | ((b11 as u128) << 88) | ((b12 as u128) << 96) | ((b13 as u128) << 104) | ((b14 as u128) << 112) | ((b15 as u128) << 120)) >> 96) as u8 == b12,
        (((b0 as u128) | ((b1 as u128) << 8) | ((b2 as u128) << 16) | ((b3 as u128) << 24) | ((b4 as u128) << 32) | ((b5 as u128) << 40) | ((b6 as u128) << 48) | ((b7 as u128) << 56) | ((b8 as u128) << 64) | ((b9 as u128) << 72) | ((b10 as u128) << 80) | ((b11 as u128) << 88) | ((b12 as u128) << 96) | ((b13 as u128) << 104) | ((b14 as u128) << 112) | ((b15 as u128) << 120)) >> 104) as u8 == b13,
        (((b0 as u128) | ((b1 as u128) << 8) | ((b2 as u128) << 16) | ((b3 as u128) << 24) | ((b4 as u128) << 32) | ((b5 as u128) << 40) | ((b6 as u128) << 48) | ((b7 as u128) << 56) | ((b8 as u128) << 64) | ((b9 as u128) << 72) | ((b10 as u128) << 80) | ((b11 as u128) << 88) | ((b12 as u128) << 96) | ((b13 as u128) << 104) | ((b14 as u128) << 112) | ((b15 as u128) << 120)) >> 112) as u8 == b14,
        (((b0 as u128) | ((b1 as u128) << 8) | ((b2 as u128) << 16) | ((b3 as u128) << 24) | ((b4 as u128) << 32) | ((b5 as u128) << 40) | ((b6 as u128) << 48) | ((b7 as u128) << 56) | ((b8 as u128) << 64) | ((b9 as u128) << 72) | ((b10 as u128) << 80) | ((b11 as u128) << 88) | ((b12 as u128) << 96) | ((b13 as u128) << 104) | ((b14 as u128) << 112) | ((b15 as u128) << 120)) >> 120) as u8 == b15,
{
    let r = (b0 as u128) | ((b1 as u128) << 8) | ((b2 as u128) << 16) | ((b3 as u128) << 24) | ((b4 as u128) << 32) | ((b5 as u128) << 40) | ((b6 as u128) << 48) | ((b7 as u128) << 56) | ((b8 as u128) << 64) | ((b9 as u128) << 72) | ((b10 as u128) << 80) | ((b11 as u128) << 88) | ((b12 as u128) << 96) | ((b13 as u128) << 104) | ((b14 as u128) << 112) | ((b15 as u128) << 120);
    assert(r as u8 == b0 && (r >> 8) as u8 == b1 && (r >> 16) as u8 == b2 && (r >> 24) as u8 == b3 && (r >> 32) as u8 == b4 && (r >> 40) as u8 == b5 && (r >> 48) as u8 == b6 && (r >> 56) as u8 == b7 && (r >> 64) as u8 == b8 && (r >> 72) as u8 == b9 && (r >> 80) as u8 == b10 && (r >> 88) as u8 == b11 && (r >> 96) as u8 == b12 && (r >> 104) as u8 == b13 && (r >> 112) as u8 == b14 && (r >> 120) as u8 == b15) by (bit_vector)
        requires r == (b0 as u128) | ((b1 as u128) << 8) | ((b2 as u128) << 16) | ((b3 as u128) << 24) | ((b4 as u128) << 32) | ((b5 as u128) << 40) | ((b6 as u128) << 48) | ((b7 as u128) << 56) | ((b8 as u128) << 64) | ((b9 as u128) << 72) | ((b10 as u128) << 80) | ((b11 as u128) << 88) | ((b12 as u128) << 96) | ((b13 as u128) << 104) | ((b14 as u128) << 112) | ((b15 as u128) << 120);
}

/// Reading back the bytes of `x` at `at` gives `x`.
pub proof fn lemma_u128_read_back(b: Seq<u8>, at: int, x: u128)
    requires
        0 <= at, at + 16 <= b.len(),
        b.subrange(at, at + 16) == le_u128(x),
    ensures
        u128_at(b, at) == x,
{
    assert(b[at + 0] == b.subrange(at, at + 16)[0]);
    assert(b[at + 1] == b.subrange(at, at + 16)[1]);
    assert(b[at + 2] == b.subrange(at, at + 16)[2]);
    assert(b[at + 3] == b.subrange(at, at + 16)[3]);
    assert(b[at + 4] == b.subrange(at, at + 16)[4]);
    assert(b[at + 5] == b.subrange(at, at + 16)[5]);
    assert(b[at + 6] == b.subrange(at, at + 16)[6]);
    assert(b[at + 7] == b.subrange(at, at + 16)[7]);
    assert(b[at + 8] == b.subrange(at, at + 16)[8]);
    assert(b[at + 9] == b.subrange(at, at + 16)[9]);
    assert(b[at + 10] == b.subrange(at, at + 16)[10]);
    assert(b[at + 11] == b.subrange(at, at + 16)[11]);
    assert(b[at + 12] == b.subrange(at, at + 16)[12]);
    assert(b[at + 13] == b.subrange(at, at + 16)[13]);
    assert(b[at + 14] == b.subrange(at, at + 16)[14]);
    assert(b[at + 15] == b.subrange(at, at + 16)[15]);
    lemma_u128_decode_encode(x);
}

/// The bytes at `at` are the encoding of the integer read there.
pub proof fn lemma_u128_bytes(b: Seq<u8>, at: int)
    requires
        0 <= at, at + 16 <= b.len(),
    ensures
        b.subrange(at, at + 16) == le_u128(u128_at(b, at)),
{
    lemma_u128_encode_decode(b[at + 0], b[at + 1], b[at + 2], b[at + 3], b[at + 4], b[at + 5], b[at + 6], b[at + 7], b[at + 8], b[at + 9], b[at + 10], b[at + 11], b[at + 12], b[at + 13], b[at + 14], b[at + 15]);
    assert(b.subrange(at, at + 16) =~= le_u128(u128_at(b, at)));
}

fn push_u128(v: &mut Vec<u8>, x: u128)
    ensures
        final(v)@ == old(v)@ + le_u128(x),
{
    v.push(x as u8);
    v.push((x >> 8) as u8);
    v.push((x >> 16) as u8);
    v.push((x >> 24) as u8);
    v.push((x >> 32) as u8);
    v.push((x >> 40) as u8);
    v.push((x >> 48) as u8);
    v.push((x >> 56) as u8);
    v.push((x >> 64) as u8);
    v.push((x >> 72) as u8);
    v.push((x >> 80) as u8);
    v.push((x >> 88) as u8);
    v.push((x >> 96) as u8);
    v.push((x >> 104) as u8);
    v.push((x >> 112) as u8);
    v.push((x >> 120) as u8);
    assert(final(v)@ =~= old(v)@ + le_u128(x));
}

fn read_u128(b: &[u8], at: usize) -> (r: u128)
    requires
        at + 16 <= b@.len(),
    ensures
        r == u128_at(b@, at as int),
{
    (b[at] as u128) | ((b[at + 1] as u128) << 8) | ((b[at + 2] as u128) << 16) | ((b[at + 3] as u128) << 24) | ((b[at + 4] as u128) << 32) | ((b[at + 5] as u128) << 40) | ((b[at + 6] as u128) << 48) | ((b[at + 7] as u128) << 56) | ((b[at + 8] as u128) << 64) | ((b[at + 9] as u128) << 72) | ((b[at + 10] as u128) << 80) | ((b[at + 11] as u128) << 88) | ((b[at + 12] as u128) << 96) | ((b[at + 13] as u128) << 104) | ((b[at + 14] as u128) << 112) | ((b[at + 15] as u128) << 120)
}

impl Header {
    /// The encoding of the header: its fields little-endian, in order.
    #[verifier::opaque]
    pub open spec fn spec_bytes(self) -> Seq<u8> {
        le_u16(self.bmp.id)
            + le_u32(self.bmp.file_size)
            + le_u32(self.bmp.unused1)
            + le_u32(self.bmp.offset)
            + le_u32(self.bmp.dib_size)
            + le_u32(self.bmp.width)
            + le_u32(self.bmp.height)
            + le_u16(self.bmp.pbnlanes)
            + le_u16(self.bmp.bpp)
            + le_u32(self.bmp.compression)
            + le_u32(self.bmp.pixmap_size)
            + le_u32(self.bmp.horizontal)
            + le_u32(self.bmp.vertical)
            + le_u32(self.bmp.palette)
            + le_u32(self.bmp.important)
            + le_u32(self.bmp.red_mask)
            + le_u32(self.bmp.green_mask)
            + le_u32(self.bmp.blue_mask)
            + le_u32(self.bmp.alpha_mask)
            + le_u32(self.bmp.win)
            + le_u128(self.bmp.unused2a)
            + le_u128(self.bmp.unused2b)
            + le_u32(self.bmp.unused2c)
            + le_u32(self.bmp.red_gamma)
            + le_u32(self.bmp.green_gamma)
            + le_u32(self.bmp.blue_gamma)
            + le_u32(self.bmp.intent)
            + le_u32(self.bmp.profile_data)
            + le_u32(self.bmp.profile_size)
            + le_u32(self.bmp.reserved)
            + le_u32(self.b2b.padding_size)
            + le_u32(self.b2b.original_file_size)
            + le_u128(self.b2b.signature)
            + le_u128(self.b2b.od.0)
    }

    /// The header whose encoding is `b[0..178]`.
    #[verifier::opaque]
    pub open spec fn spec_decode(b: Seq<u8>) -> Header {
        Header {
            bmp: BitmapV5Header {
                id: u16_at(b, 0),
                file_size: u32_at(b, 2),
                unused1: u32_at(b, 6),
                offset: u32_at(b, 10),
                dib_size: u32_at(b, 14),
                width: u32_at(b, 18),
                height: u32_at(b, 22),
                pbnlanes: u16_at(b, 26),
                bpp: u16_at(b, 28),
                compression: u32_at(b, 30),
                pixmap_size: u32_at(b, 34),
                horizontal: u32_at(b, 38),
                vertical: u32_at(b, 42),
                palette: u32_at(b, 46),
                important: u32_at(b, 50),
                red_mask: u32_at(b, 54),
                green_mask: u32_at(b, 58),
                blue_mask: u32_at(b, 62),
                alpha_mask: u32_at(b, 66),
                win: u32_at(b, 70),
                unused2a: u128_at(b, 74),
                unused2b: u128_at(b, 90),
                unused2c: u32_at(b, 106),
                red_gamma: u32_at(b, 110),
                green_gamma: u32_at(b, 114),
                blue_gamma: u32_at(b, 118),
                intent: u32_at(b, 122),
                profile_data: u32_at(b, 126),
                profile_size: u32_at(b, 130),
                reserved: u32_at(b, 134),
            },
            b2b: B2BHeader {
                padding_size: u32_at(b, 138),
                original_file_size: u32_at(b, 142),
                signature: u128_at(b, 146),
                od: CompactOptionalDigest(u128_at(b, 162)),
            },
        }
    }

    /// Encodes the header into its 178 bytes.
    pub fn to_bytes(&self) -> (r: Vec<u8>)
        ensures
            r@ == self.spec_bytes(),
            r@.len() == HEADER_BYTES,
    {
        proof {
            reveal(Header::spec_bytes);
        }
        let mut v: Vec<u8> = Vec::new();
        push_u16(&mut v, self.bmp.id);
        push_u32(&mut v, self.bmp.file_size);
        push_u32(&mut v, self.bmp.unused1);
        push_u32(&mut v, self.bmp.offset);
        push_u32(&mut v, self.bmp.dib_size);
        push_u32(&mut v, self.bmp.width);
        push_u32(&mut v, self.bmp.height);
        push_u16(&mut v, self.bmp.pbnlanes);
        push_u16(&mut v, self.bmp.bpp);
        push_u32(&mut v, self.bmp.compression);
        push_u32(&mut v, self.bmp.pixmap_size);
        push_u32(&mut v, self.bmp.horizontal);
        push_u32(&mut v, self.bmp.vertical);
        push_u32(&mut v, self.bmp.palette);
        push_u32(&mut v, self.bmp.important);
        push_u32(&mut v, self.bmp.red_mask);
        push_u32(&mut v, self.bmp.green_mask);
        push_u32(&mut v, self.bmp.blue_mask);
        push_u32(&mut v, self.bmp.alpha_mask);
        push_u32(&mut v, self.bmp.win);
        push_u128(&mut v, self.bmp.unused2a);
        push_u128(&mut v, self.bmp.unused2b);
        push_u32(&mut v, self.bmp.unused2c);
        push_u32(&mut v, self.bmp.red_gamma);
        push_u32(&mut v, self.bmp.green_gamma);
        push_u32(&mut v, self.bmp.blue_gamma);
        push_u32(&mut v, self.bmp.intent);
        push_u32(&mut v, self.bmp.profile_data);
        push_u32(&mut v, self.bmp.profile_size);
        push_u32(&mut v, self.bmp.reserved);
        push_u32(&mut v, self.b2b.padding_size);
        push_u32(&mut v, self.b2b.original_file_size);
        push_u128(&mut v, self.b2b.signature);
        push_u128(&mut v, self.b2b.od.0);
        v
    }

    /// Decodes a header from the first 178 bytes of `bytes`; fails when
    /// there are fewer.
    pub fn from_bytes(bytes: &[u8]) -> (r: Result<Header>)
        ensures
            r is Err <==> bytes@.len() < HEADER_BYTES,
            r is Err ==> r->Err_0.kind == ErrorKind::SerializationError,
            r is Ok ==> r->Ok_0 == Self::spec_decode(bytes@),
    {
        proof {
            reveal(Header::spec_decode);
        }
        if bytes.len() < HEADER_BYTES {
            return Err(Error::new(ErrorKind::SerializationError, "too few bytes for a header"));
        }
        Ok(Header {
            bmp: BitmapV5Header {
                id: read_u16(bytes, 0),
                file_size: read_u32(bytes, 2),
                unused1: read_u32(bytes, 6),
                offset: read_u32(bytes, 10),
                dib_size: read_u32(bytes, 14),
                width: read_u32(bytes, 18),
                height: read_u32(bytes, 22),
                pbnlanes: read_u16(bytes, 26),
                bpp: read_u16(bytes, 28),
                compression: read_u32(bytes, 30),
                pixmap_size: read_u32(bytes, 34),
                horizontal: read_u32(bytes, 38),
                vertical: read_u32(bytes, 42),
                palette: read_u32(bytes, 46),
                important: read_u32(bytes, 50),
                red_mask: read_u32(bytes, 54),
                green_mask: read_u32(bytes, 58),
                blue_mask: read_u32(bytes, 62),
                alpha_mask: read_u32(bytes, 66),
                win: read_u32(bytes, 70),
                unused2a: read_u128(bytes, 74),
                unused2b: read_u128(bytes, 90),
                unused2c: read_u32(bytes, 106),
                red_gamma: read_u32(bytes, 110),
                green_gamma: read_u32(bytes, 114),
                blue_gamma: read_u32(bytes, 118),
                intent: read_u32(bytes, 122),
                profile_data: read_u32(bytes, 126),
                profile_size: read_u32(bytes, 130),
                reserved: read_u32(bytes, 134),
            },
            b2b: B2BHeader {
                padding_size: read_u32(bytes, 138),
                original_file_size: read_u32(bytes, 142),
                signature: read_u128(bytes, 146),
                od: CompactOptionalDigest(read_u128(bytes, 162)),
            },
        })
    }
}

proof fn lemma_split(b: Seq<u8>, p: Seq<u8>, s: Seq<u8>)
    requires
        p.len() + s.len() <= b.len(),
        b.subrange(0, (p.len() + s.len()) as int) == p + s,
    ensures
        b.subrange(0, p.len() as int) == p,
        b.subrange(p.len() as int, (p.len() + s.len()) as int) == s,
{
    let l = (p.len() + s.len()) as int;
    assert(b.subrange(0, p.len() as int) =~= p);
    assert forall|i: int| 0 <= i < s.len() implies b.subrange(p.len() as int, l)[i] == s[i] by {
        assert(b.subrange(0, l)[p.len() + i] == (p + s)[p.len() + i]);
    }
    assert(b.subrange(p.len() as int, (p.len() + s.len()) as int) =~= s);
}

/// Decoding the encoding of a header gives the header back.
#[verifier::spinoff_prover]
pub proof fn lemma_decode_encode(h: Header, b: Seq<u8>)
    requires
        b.len() >= HEADER_BYTES,
        b.subrange(0, 178) == h.spec_bytes(),
    ensures
        Header::spec_decode(b) == h,
{
    reveal(Header::spec_bytes);
    reveal(Header::spec_decode);
    let e = h.spec_bytes();
    let q: Seq<u8> = Seq::empty();
    let p0 = q + le_u16(h.bmp.id);
    let p1 = p0 + le_u32(h.bmp.file_size);
    let p2 = p1 + le_u32(h.bmp.unused1);
    let p3 = p2 + le_u32(h.bmp.offset);
    let p4 = p3 + le_u32(h.bmp.dib_size);
    let p5 = p4 + le_u32(h.bmp.width);
    let p6 = p5 + le_u32(h.bmp.height);
    let p7 = p6 + le_u16(h.bmp.pbnlanes);
    let p8 = p7 + le_u16(h.bmp.bpp);
    let p9 = p8 + le_u32(h.bmp.compression);
    let p10 = p9 + le_u32(h.bmp.pixmap_size);
    let p11 = p10 + le_u32(h.bmp.horizontal);
    let p12 = p11 + le_u32(h.bmp.vertical);
    let p13 = p12 + le_u32(h.bmp.palette);
    let p14 = p13 + le_u32(h.bmp.important);
    let p15 = p14 + le_u32(h.bmp.red_mask);
    let p16 = p15 + le_u32(h.bmp.green_mask);
    let p17 = p16 + le_u32(h.bmp.blue_mask);
    let p18 = p17 + le_u32(h.bmp.alpha_mask);
    let p19 = p18 + le_u32(h.bmp.win);
    let p20 = p19 + le_u128(h.bmp.unused2a);
    let p21 = p20 + le_u128(h.bmp.unused2b);
    let p22 = p21 + le_u32(h.bmp.unused2c);
    let p23 = p22 + le_u32(h.bmp.red_gamma);
    let p24 = p23 + le_u32(h.bmp.green_gamma);
    let p25 = p24 + le_u32(h.bmp.blue_gamma);
    let p26 = p25 + le_u32(h.bmp.intent);
    let p27 = p26 + le_u32(h.bmp.profile_data);
    let p28 = p27 + le_u32(h.bmp.profile_size);
    let p29 = p28 + le_u32(h.bmp.reserved);
    let p30 = p29 + le_u32(h.b2b.padding_size);
    let p31 = p30 + le_u32(h.b2b.original_file_size);
    let p32 = p31 + le_u128(h.b2b.signature);
    let p33 = p32 + le_u128(h.b2b.od.0);
    assert(e == p33);
    assert(p32.len() == 162);
    lemma_split(b, p32, le_u128(h.b2b.od.0));
    lemma_u128_read_back(b, 162, h.b2b.od.0);
    assert(p31.len() == 146);
    lemma_split(b, p31, le_u128(h.b2b.signature));
    lemma_u128_read_back(b, 146, h.b2b.signature);
    assert(p30.len() == 142);
    lemma_split(b, p30, le_u32(h.b2b.original_file_size));
    lemma_u32_read_back(b, 142, h.b2b.original_file_size);
    assert(p29.len() == 138);
    lemma_split(b, p29, le_u32(h.b2b.padding_size));
    lemma_u32_read_back(b, 138, h.b2b.padding_size);
    assert(p28.len() == 134);
    lemma_split(b, p28, le_u32(h.bmp.reserved));
    lemma_u32_read_back(b, 134, h.bmp.reserved);
    assert(p27.len() == 130);
    lemma_split(b, p27, le_u32(h.bmp.profile_size));
    lemma_u32_read_back(b, 130, h.bmp.profile_size);
    assert(p26.len() == 126);
    lemma_split(b, p26, le_u32(h.bmp.profile_data));
    lemma_u32_read_back(b, 126, h.bmp.profile_data);
    assert(p25.len() == 122);
    lemma_split(b, p25, le_u32(h.bmp.intent));
    lemma_u32_read_back(b, 122, h.bmp.intent);
    assert(p24.len() == 118);
    lemma_split(b, p24, le_u32(h.bmp.blue_gamma));
    lemma_u32_read_back(b, 118, h.bmp.blue_gamma);
    assert(p23.len() == 114);
    lemma_split(b, p23, le_u32(h.bmp.green_gamma));
    lemma_u32_read_back(b, 114, h.bmp.green_gamma);
    assert(p22.len() == 110);
    lemma_split(b, p22, le_u32(h.bmp.red_gamma));
    lemma_u32_read_back(b, 110, h.bmp.red_gamma);
    assert(p21.len() == 106);
    lemma_split(b, p21, le_u32(h.bmp.unused2c));
    lemma_u32_read_back(b, 106, h.bmp.unused2c);
    assert(p20.len() == 90);
    lemma_split(b, p20, le_u128(h.bmp.unused2b));
    lemma_u128_read_back(b, 90, h.bmp.unused2b);
    assert(p19.len() == 74);
    lemma_split(b, p19, le_u128(h.bmp.unused2a));
    lemma_u128_read_back(b, 74, h.bmp.unused2a);
    assert(p18.len() == 70);
    lemma_split(b, p18, le_u32(h.bmp.win));
    lemma_u32_read_back(b, 70, h.bmp.win);
    assert(p17.len() == 66);
    lemma_split(b, p17, le_u32(h.bmp.alpha_mask));
    lemma_u32_read_back(b, 66, h.bmp.alpha_mask);
    assert(p16.len() == 62);
    lemma_split(b, p16, le_u32(h.bmp.blue_mask));
    lemma_u32_read_back(b, 62, h.bmp.blue_mask);
    assert(p15.len() == 58);
    lemma_split(b, p15, le_u32(h.bmp.green_mask));
    lemma_u32_read_back(b, 58, h.bmp.green_mask);
    assert(p14.len() == 54);
    lemma_split(b, p14, le_u32(h.bmp.red_mask));
    lemma_u32_read_back(b, 54, h.bmp.red_mask);
    assert(p13.len() == 50);
    lemma_split(b, p13, le_u32(h.bmp.important));
    lemma_u32_read_back(b, 50, h.bmp.important);
    assert(p12.len() == 46);
    lemma_split(b, p12, le_u32(h.bmp.palette));
    lemma_u32_read_back(b, 46, h.bmp.palette);
    assert(p11.len() == 42);
    lemma_split(b, p11, le_u32(h.bmp.vertical));
    lemma_u32_read_back(b, 42, h.bmp.vertical);
    assert(p10.len() == 38);
    lemma_split(b, p10, le_u32(h.bmp.horizontal));
    lemma_u32_read_back(b, 38, h.bmp.horizontal);
    assert(p9.len() == 34);
    lemma_split(b, p9, le_u32(h.bmp.pixmap_size));
    lemma_u32_read_back(b, 34, h.bmp.pixmap_size);
    assert(p8.len() == 30);
    lemma_split(b, p8, le_u32(h.bmp.compression));
    lemma_u32_read_back(b, 30, h.bmp.compression);
    assert(p7.len() == 28);
    lemma_split(b, p7, le_u16(h.bmp.bpp));
    lemma_u16_read_back(b, 28, h.bmp.bpp);
    assert(p6.len() == 26);
    lemma_split(b, p6, le_u16(h.bmp.pbnlanes));
    lemma_u16_read_back(b, 26, h.bmp.pbnlanes);
    assert(p5.len() == 22);
    lemma_split(b, p5, le_u32(h.bmp.height));
    lemma_u32_read_back(b, 22, h.bmp.height);
    assert(p4.len() == 18);
    lemma_split(b, p4, le_u32(h.bmp.width));
    lemma_u32_read_back(b, 18, h.bmp.width);
    assert(p3.len() == 14);
    lemma_split(b, p3, le_u32(h.bmp.dib_size));
    lemma_u32_read_back(b, 14, h.bmp.dib_size);
    assert(p2.len() == 10);
    lemma_split(b, p2, le_u32(h.bmp.offset));
    lemma_u32_read_back(b, 10, h.bmp.offset);
    assert(p1.len() == 6);
    lemma_split(b, p1, le_u32(h.bmp.unused1));
    lemma_u32_read_back(b, 6, h.bmp.unused1);
    assert(p0.len() == 2);
    lemma_split(b, p0, le_u32(h.bmp.file_size));
    lemma_u32_read_back(b, 2, h.bmp.file_size);
    assert(q.len() == 0);
    lemma_split(b, q, le_u16(h.bmp.id));
    lemma_u16_read_back(b, 0, h.bmp.id);
}

/// The encoding of the decoded header is the first 178 bytes.
pub proof fn lemma_encode_decode(b: Seq<u8>)
    requires
        b.len() >= HEADER_BYTES,
    ensures
        Header::spec_decode(b).spec_bytes() == b.subrange(0, 178),
{
    reveal(Header::spec_bytes);
    reveal(Header::spec_decode);
    let h = Header::spec_decode(b);
    lemma_u16_bytes(b, 0);
    lemma_u32_bytes(b, 2);
    lemma_u32_bytes(b, 6);
    lemma_u32_bytes(b, 10);
    lemma_u32_bytes(b, 14);
    lemma_u32_bytes(b, 18);
    lemma_u32_bytes(b, 22);
    lemma_u16_bytes(b, 26);
    lemma_u16_bytes(b, 28);
    lemma_u32_bytes(b, 30);
    lemma_u32_bytes(b, 34);
    lemma_u32_bytes(b, 38);
    lemma_u32_bytes(b, 42);
    lemma_u32_bytes(b, 46);
    lemma_u32_bytes(b, 50);
    lemma_u32_bytes(b, 54);
    lemma_u32_bytes(b, 58);
    lemma_u32_bytes(b, 62);
    lemma_u32_bytes(b, 66);
    lemma_u32_bytes(b, 70);
    lemma_u128_bytes(b, 74);
    lemma_u128_bytes(b, 90);
    lemma_u32_bytes(b, 106);
    lemma_u32_bytes(b, 110);
    lemma_u32_bytes(b, 114);
    lemma_u32_bytes(b, 118);
    lemma_u32_bytes(b, 122);
    lemma_u32_bytes(b, 126);
    lemma_u32_bytes(b, 130);
    lemma_u32_bytes(b, 134);
    lemma_u32_bytes(b, 138);
    lemma_u32_bytes(b, 142);
    lemma_u128_bytes(b, 146);
    lemma_u128_bytes(b, 162);
    assert(h.spec_bytes() =~= b.subrange(0, 178));
}

/// Every header encodes to 178 bytes.
pub proof fn lemma_bytes_len(h: Header)
    ensures
        h.spec_bytes().len() == HEADER_BYTES,
{
    reveal(Header::spec_bytes);
}

/// The fields that validation and restoring read, at their offsets.
pub proof fn lemma_decode_fields(b: Seq<u8>)
    ensures
        Header::spec_decode(b).bmp.id == u16_at(b, 0),
        Header::spec_decode(b).bmp.pixmap_size == u32_at(b, 34),
        Header::spec_decode(b).b2b.padding_size == u32_at(b, 138),
        Header::spec_decode(b).b2b.original_file_size == u32_at(b, 142),
        Header::spec_decode(b).b2b.signature == u128_at(b, 146),
        Header::spec_decode(b).b2b.od.0 == u128_at(b, 162),
{
    reveal(Header::spec_decode);
}

} // verus!
