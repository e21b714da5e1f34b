//! Little-endian integer fields read out of byte buffers.

use vstd::prelude::*;

verus! {

/// Value of the little-endian `u16` stored at `b[i..i+2]`.
pub open spec fn le_u16(b: Seq<u8>, i: int) -> int {
    b[i] + 256 * b[i + 1]
}

/// Value of the little-endian `u32` stored at `b[i..i+4]`.
pub open spec fn le_u32(b: Seq<u8>, i: int) -> int {
    b[i] + 256 * b[i + 1] + 65536 * b[i + 2] + 16777216 * b[i + 3]
}

/// Value of the little-endian two's-complement `i32` stored at `b[i..i+4]`.
pub open spec fn le_i32(b: Seq<u8>, i: int) -> int {
    if le_u32(b, i) < 0x8000_0000 {
        le_u32(b, i)
    } else {
        le_u32(b, i) - 0x1_0000_0000
    }
}

/// Bytes of `v` in little-endian order.
pub open spec fn u16_le_bytes(v: u16) -> Seq<u8> {
    seq![(v % 256) as u8, (v / 256) as u8]
}

/// Bytes of `v` in little-endian order.
pub open spec fn u32_le_bytes(v: u32) -> Seq<u8> {
    seq![(v % 256) as u8, ((v / 256) % 256) as u8, ((v / 65536) % 256) as u8, ((v / 16777216) % 256) as u8]
}

/// Bytes of `v` in little-endian order.
pub open spec fn u64_le_bytes(v: u64) -> Seq<u8> {
    u32_le_bytes((v % 0x1_0000_0000) as u32) + u32_le_bytes((v / 0x1_0000_0000) as u32)
}

/// Bytes of `v` in little-endian two's-complement order.
pub open spec fn i32_le_bytes(v: i32) -> Seq<u8> {
    u32_le_bytes((if v < 0 { v + 0x1_0000_0000 } else { v as int }) as u32)
}

/// The `u16` written by `u16_le_bytes` reads back.
pub proof fn lemma_u16_le_roundtrip(v: u16)
    ensures
        le_u16(u16_le_bytes(v), 0) == v,
{
    let b = u16_le_bytes(v);
    assert(b[0] + 256 * b[1] == v) by (nonlinear_arith)
        requires
            b[0] == v % 256,
            b[1] == v / 256,
            0 <= v < 0x1_0000;
}

/// The `u32` written by `u32_le_bytes` reads back.
pub proof fn lemma_u32_le_roundtrip(v: u32)
    ensures
        le_u32(u32_le_bytes(v), 0) == v,
{
    let b = u32_le_bytes(v);
    assert(b[0] + 256 * b[1] + 65536 * b[2] + 16777216 * b[3] == v) by (nonlinear_arith)
        requires
            b[0] == v % 256,
            b[1] == (v / 256) % 256,
            b[2] == (v / 65536) % 256,
            b[3] == (v / 16777216) % 256,
            0 <= v < 0x1_0000_0000;
}

/// The `i32` written by `i32_le_bytes` reads back.
pub proof fn lemma_i32_le_roundtrip(v: i32)
    ensures
        le_i32(i32_le_bytes(v), 0) == v,
{
    let u = (if v < 0 { v + 0x1_0000_0000 } else { v as int }) as u32;
    lemma_u32_le_roundtrip(u);
}

/// Reads a little-endian `u16` at byte offset `i`.
pub fn read_u16_le(data: &[u8], i: usize) -> (r: u16)
    requires
        i + 2 <= data@.len(),
    ensures
        r == le_u16(data@, i as int),
{
    let b0 = data[i] as u16;
    let b1 = data[i + 1] as u16;
    b0 + b1 * 256
}

/// Reads a little-endian `u32` at byte offset `i`.
pub fn read_u32_le(data: &[u8], i: usize) -> (r: u32)
    requires
        i + 4 <= data@.len(),
    ensures
        r == le_u32(data@, i as int),
{
    let b0 = data[i] as u32;
    let b1 = data[i + 1] as u32;
    let b2 = data[i + 2] as u32;
    let b3 = data[i + 3] as u32;
    b0 + b1 * 256 + b2 * 65536 + b3 * 16777216
}

/// Reads a little-endian two's-complement `i32` at byte offset `i`.
pub fn read_i32_le(data: &[u8], i: usize) -> (r: i32)
    requires
        i + 4 <= data@.len(),
    ensures
        r == le_i32(data@, i as int),
{
    let u = read_u32_le(data, i);
    if u < 0x8000_0000 {
        u as i32
    } else {
        let low = (u - 0x8000_0000u32) as i32;
        low - 0x7fff_ffff - 1
    }
}

} // verus!
