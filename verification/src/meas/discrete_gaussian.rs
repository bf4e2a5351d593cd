//! Arithmetic on fixed-point numbers with 16 fraction bits, held as their
//! bits: the value of bits `x` is `x / 2^16`.
use vstd::prelude::*;

verus! {

/// `r` is the greatest integer whose square is at most `x / 2^16`, for a
/// non-negative value, and 0 for a negative one.
pub open spec fn spec_is_floorsqrt(x_bits: int, r: int) -> bool {
    if x_bits < 0 {
        r == 0
    } else {
        &&& r >= 0
        &&& r * r * 0x10000 <= x_bits
        &&& x_bits < (r + 1) * (r + 1) * 0x10000
    }
}

/// `v * v * 2^16`.
fn square_scaled(v: i64) -> (r: i64)
    requires
        0 <= v <= 512,
    ensures
        r == v * v * 0x10000,
        r >= 0,
{
    assert(0 <= v * v * 0x10000 <= 512 * 512 * 0x10000) by (nonlinear_arith)
        requires 0 <= v <= 512;
    v * v * 0x10000
}

/// The integer square root, rounded down, of the fixed-point value with bits
/// `x_bits`, returned as the bits of the result: the result reads as that
/// integer divided by `2^16`.
pub fn floorsqrt(x_bits: i32) -> (r: i32)
    ensures
        spec_is_floorsqrt(x_bits as int, r as int),
{
    let x: i64 = x_bits as i64;
    let mut a: i64 = 0;
    let mut b: i64 = 1;
    while square_scaled(b) <= x
        invariant
            1 <= b <= 512,
            x == x_bits,
            a == 0,
        decreases 512 - b,
    {
        assert(b * b < 0x8000) by (nonlinear_arith)
            requires b * b * 0x10000 <= x, x < 0x8000_0000;
        assert(b < 182) by (nonlinear_arith)
            requires b * b < 0x8000, b >= 1;
        b = b * 2;
    }
    assert(a * a * 0x10000 == 0);
    while a + 1 < b
        invariant
            0 <= a < b <= 512,
            x == x_bits,
            x >= 0 ==> a * a * 0x10000 <= x,
            x < 0 ==> a == 0,
            x < b * b * 0x10000,
        decreases b - a,
    {
        let c = (a + b) / 2;
        if square_scaled(c) <= x {
            a = c;
        } else {
            b = c;
        }
    }
    a as i32
}

} // verus!
