//! Saturating integer helpers with exact specifications.
//!
//! Coordinate arithmetic on guest-supplied rectangles can reach the ends of
//! the machine ranges; these helpers pin the result down for every input
//! instead of ruling the extremes out at each call site.

use vstd::prelude::*;

verus! {

/// A mathematical integer forced into the `i64` range.
pub open spec fn clamp_i64(v: int) -> i64 {
    if v < i64::MIN {
        i64::MIN
    } else if v > i64::MAX {
        i64::MAX
    } else {
        v as i64
    }
}

/// A mathematical integer forced into the `u32` range, as an integer.
pub open spec fn clamp_u32_int(v: int) -> u32 {
    if v < 0 {
        0u32
    } else if v > u32::MAX {
        u32::MAX
    } else {
        v as u32
    }
}

/// Saturating `i64` addition.
pub fn sat_add_i64(a: i64, b: i64) -> (r: i64)
    ensures
        r == clamp_i64(a + b),
{
    if b >= 0 {
        if a > i64::MAX - b {
            i64::MAX
        } else {
            a + b
        }
    } else {
        if a < i64::MIN - b {
            i64::MIN
        } else {
            a + b
        }
    }
}

/// Saturating `i64` subtraction.
pub fn sat_sub_i64(a: i64, b: i64) -> (r: i64)
    ensures
        r == clamp_i64(a - b),
{
    if b <= 0 {
        if b < 0 && a > i64::MAX + b {
            i64::MAX
        } else {
            a - b
        }
    } else {
        if a < i64::MIN + b {
            i64::MIN
        } else {
            a - b
        }
    }
}

/// A mathematical integer forced into the `u64` range.
pub open spec fn clamp_u64_int(v: int) -> u64 {
    if v < 0 {
        0u64
    } else if v > u64::MAX {
        u64::MAX
    } else {
        v as u64
    }
}

/// Saturating `u64` addition.
pub fn sat_add_u64(a: u64, b: u64) -> (r: u64)
    ensures
        r == clamp_u64_int(a + b),
{
    if a > u64::MAX - b {
        u64::MAX
    } else {
        a + b
    }
}

/// Saturating `i64` multiplication.
pub fn sat_mul_i64(a: i64, b: i64) -> (r: i64)
    ensures
        r == clamp_i64(a * b),
{
    proof {
        assert(-0x4000_0000_0000_0000_0000_0000_0000_0000_i128 <= (a as i128) * (b as i128)
            <= 0x4000_0000_0000_0000_0000_0000_0000_0000_i128) by (nonlinear_arith)
            requires
                -0x8000_0000_0000_0000_i128 <= a <= 0x7fff_ffff_ffff_ffff_i128,
                -0x8000_0000_0000_0000_i128 <= b <= 0x7fff_ffff_ffff_ffff_i128,
        ;
    }
    let wide: i128 = (a as i128) * (b as i128);
    if wide < i64::MIN as i128 {
        i64::MIN
    } else if wide > i64::MAX as i128 {
        i64::MAX
    } else {
        wide as i64
    }
}

/// Saturating `u32` addition.
pub fn sat_add_u32(a: u32, b: u32) -> (r: u32)
    ensures
        r == clamp_u32_int(a + b),
{
    if a > u32::MAX - b {
        u32::MAX
    } else {
        a + b
    }
}

} // verus!
