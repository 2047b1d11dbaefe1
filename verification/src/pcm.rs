//! Signed 16-bit little-endian PCM samples.
use vstd::prelude::*;

verus! {

/// `v` limited to the range of `i16`.
pub open spec fn clamp_i16(v: int) -> int {
    if v > 32767 {
        32767
    } else if v < -32768 {
        -32768
    } else {
        v
    }
}

/// The two's-complement `u16` pattern of an `i16` value.
pub open spec fn u16_pattern(v: int) -> int {
    if v < 0 {
        v + 0x1_0000
    } else {
        v
    }
}

/// The signed 16-bit little-endian sample at byte `at` of `b`.
pub open spec fn le_i16_at(b: Seq<u8>, at: int) -> int {
    let lo = b[at] as int;
    let hi = b[at + 1] as int;
    lo + 0x100 * hi - if hi >= 0x80 {
        0x1_0000int
    } else {
        0
    }
}

/// Reads the signed 16-bit little-endian sample at byte `at`
/// (`i16::from_le_bytes`).
pub fn read_le_i16(b: &[u8], at: usize) -> (r: i16)
    requires
        at + 1 < b@.len(),
    ensures
        r == le_i16_at(b@, at as int),
{
    let lo = b[at] as i32;
    let hi = b[at + 1] as i32;
    let v = lo + 0x100 * hi;
    if hi >= 0x80 {
        (v - 0x1_0000) as i16
    } else {
        v as i16
    }
}

/// Limits a mixed value to the range of `i16`.
pub fn saturate_i16(v: i32) -> (r: i16)
    ensures
        r == clamp_i16(v as int),
{
    if v > 32767 {
        32767
    } else if v < -32768 {
        -32768
    } else {
        v as i16
    }
}

} // verus!
