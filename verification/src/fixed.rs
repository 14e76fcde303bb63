//! Fixed-point quantities: every amount of effort, every resource and every
//! characteristic is a signed count of millionths.

use vstd::prelude::*;

verus! {

/// The number of millionths in one whole unit.
pub const SCALE: i64 = 1_000_000;

/// `x` brought into the range of `i64`.
pub open spec fn saturate(x: int) -> int {
    if x < i64::MIN {
        i64::MIN as int
    } else if x > i64::MAX {
        i64::MAX as int
    } else {
        x
    }
}

/// Narrows a wide value to `i64`, stopping at the ends of the range.
pub fn narrow(x: i128) -> (r: i64)
    ensures
        r == saturate(x as int),
{
    if x < i64::MIN as i128 {
        i64::MIN
    } else if x > i64::MAX as i128 {
        i64::MAX
    } else {
        x as i64
    }
}

/// The sum of two quantities, saturating at the ends of the range.
pub fn sat_add(a: i64, b: i64) -> (r: i64)
    ensures
        r == saturate(a + b),
{
    narrow(a as i128 + b as i128)
}

/// The difference of two quantities, saturating at the ends of the range.
pub fn sat_sub(a: i64, b: i64) -> (r: i64)
    ensures
        r == saturate(a - b),
{
    narrow(a as i128 - b as i128)
}

/// The product of two fixed-point quantities, as a fixed-point quantity:
/// the exact product divided by the scale, rounded down.
pub open spec fn scaled_product(a: int, b: int) -> int {
    saturate((a * b) / (SCALE as int))
}

/// Multiplies two fixed-point quantities.
pub fn scaled_mul(a: i64, b: i64) -> (r: i64)
    ensures
        r == scaled_product(a as int, b as int),
{
    assert(-0x4000_0000_0000_0000_0000_0000_0000_0000 <= (a as int) * (b as int)
        <= 0x4000_0000_0000_0000_0000_0000_0000_0000) by (nonlinear_arith)
        requires
            -0x8000_0000_0000_0000 <= a <= 0x7fff_ffff_ffff_ffff,
            -0x8000_0000_0000_0000 <= b <= 0x7fff_ffff_ffff_ffff,
    ;
    let wide: i128 = (a as i128) * (b as i128);
    match wide.checked_div_euclid(SCALE as i128) {
        Some(q) => narrow(q),
        None => 0,
    }
}

} // verus!
