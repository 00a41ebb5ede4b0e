//! Little-endian integers as a function of the bytes that encode them.
//!
//! Every multi-byte field of the format is little-endian. The spec functions
//! here say what value a run of bytes stands for; the executable functions
//! compute it from a slice, one byte at a time.

use vstd::prelude::*;

verus! {

/// The 16-bit value whose little-endian encoding starts at `s[at]`.
pub open spec fn le_u16(s: Seq<u8>, at: int) -> u16 {
    (s[at] as int + 256 * (s[at + 1] as int)) as u16
}

/// The 32-bit value whose little-endian encoding starts at `s[at]`.
pub open spec fn le_u32(s: Seq<u8>, at: int) -> u32 {
    (s[at] as int + 256 * (s[at + 1] as int) + 65536 * (s[at + 2] as int) + 16777216 * (s[at
        + 3] as int)) as u32
}

/// The two's-complement reading of a 32-bit word.
pub open spec fn as_signed(word: u32) -> i32 {
    if word < 0x8000_0000 {
        word as i32
    } else {
        (word as int - 0x1_0000_0000) as i32
    }
}

/// The signed 32-bit value whose little-endian encoding starts at `s[at]`.
pub open spec fn le_i32(s: Seq<u8>, at: int) -> i32 {
    as_signed(le_u32(s, at))
}

/// The bytes of `s` from `at` up to, not including, the first zero byte at or
/// after `at` and before `end`; all of `s[at..end]` when it holds no zero.
pub open spec fn until_nul(s: Seq<u8>, at: int, end: int) -> Seq<u8>
    decreases end - at,
{
    if at >= end || s[at] == 0 {
        Seq::empty()
    } else {
        seq![s[at]] + until_nul(s, at + 1, end)
    }
}

/// The text of a field depends on the bytes of the field alone.
pub proof fn lemma_until_nul_local(s: Seq<u8>, t: Seq<u8>, at: int, end: int)
    requires
        0 <= at,
        end <= s.len(),
        end <= t.len(),
        forall|i: int| at <= i < end ==> s[i] == t[i],
    ensures
        until_nul(s, at, end) == until_nul(t, at, end),
    decreases end - at,
{
    if at < end && s[at] != 0 {
        lemma_until_nul_local(s, t, at + 1, end);
    }
}

/// Reads the little-endian `u16` at `buf[at..at + 2]`.
pub fn u16_at(buf: &[u8], at: usize) -> (value: u16)
    requires
        at + 2 <= buf@.len(),
    ensures
        value == le_u16(buf@, at as int),
{
    let b0: u16 = buf[at] as u16;
    let b1: u16 = buf[at + 1] as u16;
    b0 + 256 * b1
}

/// Reads the little-endian `u32` at `buf[at..at + 4]`.
pub fn u32_at(buf: &[u8], at: usize) -> (value: u32)
    requires
        at + 4 <= buf@.len(),
    ensures
        value == le_u32(buf@, at as int),
{
    let b0: u32 = buf[at] as u32;
    let b1: u32 = buf[at + 1] as u32;
    let b2: u32 = buf[at + 2] as u32;
    let b3: u32 = buf[at + 3] as u32;
    b0 + 256 * b1 + 65536 * b2 + 16777216 * b3
}

/// Reinterprets a 32-bit word as a two's-complement integer.
pub fn to_signed(word: u32) -> (value: i32)
    ensures
        value == as_signed(word),
{
    if word < 0x8000_0000 {
        word as i32
    } else {
        let low: i32 = (word - 0x8000_0000) as i32;
        low + i32::MIN
    }
}

/// The text of a fixed-width field is no longer than the field, and holds no
/// zero byte.
pub proof fn lemma_until_nul_bounds(s: Seq<u8>, at: int, end: int)
    requires
        0 <= at <= end <= s.len(),
    ensures
        until_nul(s, at, end).len() <= end - at,
        forall|i: int| 0 <= i < until_nul(s, at, end).len() ==> until_nul(s, at, end)[i] != 0,
        forall|i: int|
            0 <= i < until_nul(s, at, end).len() ==> until_nul(s, at, end)[i] == s[at + i],
        until_nul(s, at, end).len() < end - at ==> s[at + until_nul(s, at, end).len()] == 0,
    decreases end - at,
{
    if at >= end || s[at] == 0 {
    } else {
        lemma_until_nul_bounds(s, at + 1, end);
    }
}

} // verus!
