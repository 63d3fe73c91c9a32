//! Little-endian integers as they appear on the wire.

use vstd::prelude::*;

verus! {

/// The unsigned 32-bit integer held little-endian in the four bytes of `bytes` that start at `at`.
pub open spec fn le_u32(bytes: Seq<u8>, at: int) -> u32
    recommends
        0 <= at,
        at + 4 <= bytes.len(),
{
    (bytes[at] as int + 0x100 * bytes[at + 1] as int + 0x1_0000 * bytes[at + 2] as int + 0x100_0000
        * bytes[at + 3] as int) as u32
}

/// The unsigned 64-bit integer held little-endian in the eight bytes of `bytes` that start at `at`.
pub open spec fn le_u64(bytes: Seq<u8>, at: int) -> u64
    recommends
        0 <= at,
        at + 8 <= bytes.len(),
{
    (le_u32(bytes, at) as int + 0x1_0000_0000 * le_u32(bytes, at + 4) as int) as u64
}

/// The four bytes that hold `value` in little-endian order.
pub open spec fn u32_le_bytes(value: u32) -> Seq<u8> {
    seq![
        (value as int % 0x100) as u8,
        (value as int / 0x100 % 0x100) as u8,
        (value as int / 0x1_0000 % 0x100) as u8,
        (value as int / 0x100_0000) as u8,
    ]
}

/// The eight bytes that hold `value` in little-endian order.
pub open spec fn u64_le_bytes(value: u64) -> Seq<u8> {
    u32_le_bytes((value as int % 0x1_0000_0000) as u32) + u32_le_bytes(
        (value as int / 0x1_0000_0000) as u32,
    )
}

/// Reading back four bytes written in little-endian order gives the value written,
/// wherever in a longer sequence they stand.
pub proof fn lemma_le_u32_of_bytes(value: u32, before: Seq<u8>, after: Seq<u8>)
    ensures
        u32_le_bytes(value).len() == 4,
        le_u32(before + u32_le_bytes(value) + after, before.len() as int) == value,
{
    let whole = before + u32_le_bytes(value) + after;
    let at = before.len() as int;
    assert(whole[at] == u32_le_bytes(value)[0]);
    assert(whole[at + 1] == u32_le_bytes(value)[1]);
    assert(whole[at + 2] == u32_le_bytes(value)[2]);
    assert(whole[at + 3] == u32_le_bytes(value)[3]);
}

/// Reading back eight bytes written in little-endian order gives the value written.
pub proof fn lemma_le_u64_of_bytes(value: u64, before: Seq<u8>, after: Seq<u8>)
    ensures
        u64_le_bytes(value).len() == 8,
        le_u64(before + u64_le_bytes(value) + after, before.len() as int) == value,
{
    let low = (value as int % 0x1_0000_0000) as u32;
    let high = (value as int / 0x1_0000_0000) as u32;
    let whole = before + u64_le_bytes(value) + after;
    lemma_le_u32_of_bytes(low, before, u32_le_bytes(high) + after);
    lemma_le_u32_of_bytes(high, before + u32_le_bytes(low), after);
    assert(whole =~= before + u32_le_bytes(low) + (u32_le_bytes(high) + after));
    assert(whole =~= (before + u32_le_bytes(low)) + u32_le_bytes(high) + after);
}

/// Reads one byte at `at`, if there is one.
pub fn read_u8(bytes: &[u8], at: usize) -> (value: Option<u8>)
    ensures
        value is Some <==> at < bytes@.len(),
        value matches Some(v) ==> v == bytes@[at as int],
{
    if at < bytes.len() {
        Some(bytes[at])
    } else {
        None
    }
}

/// Reads a little-endian `u32` at `at`, if four bytes are there.
pub fn read_u32_le(bytes: &[u8], at: usize) -> (value: Option<u32>)
    ensures
        value is Some <==> at + 4 <= bytes@.len(),
        value matches Some(v) ==> v == le_u32(bytes@, at as int),
{
    if at <= bytes.len() && bytes.len() - at >= 4 {
        let b0: u32 = bytes[at] as u32;
        let b1: u32 = bytes[at + 1] as u32;
        let b2: u32 = bytes[at + 2] as u32;
        let b3: u32 = bytes[at + 3] as u32;
        Some(b0 + 0x100 * b1 + 0x1_0000 * b2 + 0x100_0000 * b3)
    } else {
        None
    }
}

/// Reads a little-endian `u64` at `at`, if eight bytes are there.
pub fn read_u64_le(bytes: &[u8], at: usize) -> (value: Option<u64>)
    ensures
        value is Some <==> at + 8 <= bytes@.len(),
        value matches Some(v) ==> v == le_u64(bytes@, at as int),
{
    if at <= bytes.len() && bytes.len() - at >= 8 {
        let low = read_u32_le(bytes, at);
        let high = read_u32_le(bytes, at + 4);
        match (low, high) {
            (Some(l), Some(h)) => Some(l as u64 + 0x1_0000_0000 * (h as u64)),
            _ => None,
        }
    } else {
        None
    }
}

} // verus!
