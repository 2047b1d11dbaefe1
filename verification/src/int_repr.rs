//! Two's-complement reinterpretation between `u128` and `i128`, and the
//! truncating halving that Rust's signed `/ 2` performs.
use vstd::prelude::*;

verus! {

/// 2^128, the modulus of 128-bit integers.
pub open spec fn two_pow_128() -> int {
    0x1_0000_0000_0000_0000_0000_0000_0000_0000int
}

/// The value that `x as i128` gives for a `u128` `x`.
pub open spec fn as_signed(x: u128) -> int {
    if x <= i128::MAX {
        x as int
    } else {
        x - two_pow_128()
    }
}

/// The value that `v as u128` gives for an `i128` value `v`.
pub open spec fn as_unsigned(v: int) -> int {
    if v >= 0 {
        v
    } else {
        v + two_pow_128()
    }
}

/// Whether `v` fits in an `i128`.
pub open spec fn fits_i128(v: int) -> bool {
    i128::MIN <= v <= i128::MAX
}

/// Division by two rounding toward zero, as Rust's `/` does on signed integers.
pub open spec fn half_toward_zero(v: int) -> int {
    if v >= 0 {
        v / 2
    } else {
        -((-v) / 2)
    }
}

/// Reinterprets the bits of a `u128` as an `i128`.
pub fn to_signed(x: u128) -> (r: i128)
    ensures
        r == as_signed(x),
{
    if x <= i128::MAX as u128 {
        x as i128
    } else {
        let y: u128 = x - (i128::MAX as u128) - 1;
        (y as i128) + i128::MIN
    }
}

/// Reinterprets the bits of an `i128` as a `u128`.
pub fn to_unsigned(v: i128) -> (r: u128)
    ensures
        r == as_unsigned(v as int),
{
    if v >= 0 {
        v as u128
    } else {
        let y: i128 = v - i128::MIN;
        (y as u128) + (i128::MAX as u128) + 1
    }
}

/// Halves a signed value, rounding toward zero.
pub fn halve_toward_zero(v: i128) -> (r: i128)
    ensures
        r == half_toward_zero(v as int),
{
    if v >= 0 {
        v / 2
    } else {
        let p: i128 = -(v + 1);
        let q: i128 = p / 2 + p % 2;
        -q
    }
}

/// Reinterpreting a `u128` as signed and back gives it unchanged.
pub proof fn lemma_unsigned_of_signed(x: u128)
    ensures
        as_unsigned(as_signed(x)) == x,
{
}

/// Reinterpreting an `i128` value as unsigned and back gives it unchanged.
pub proof fn lemma_signed_of_unsigned(v: int)
    requires
        fits_i128(v),
    ensures
        0 <= as_unsigned(v) <= u128::MAX,
        as_signed(as_unsigned(v) as u128) == v,
{
}

} // verus!
