//! Fixed-point scalars.
//!
//! Every physical quantity of the simulation (lengths, times, velocities,
//! masses, angular velocities) is an `i64` counted in units of `1 / ONE`;
//! orientations use the finer scale of `crate::quat::QONE`.
//! Results that do not fit in an `i64` saturate at its bounds, and divisions
//! round toward zero.
use vstd::prelude::*;

verus! {

/// Raw value of the scalar `1.0`.
pub const ONE: i64 = 65536;

/// `x` clamped to the range of `i64`.
pub open spec fn clamp_i64(x: int) -> int {
    if x > i64::MAX {
        i64::MAX as int
    } else if x < i64::MIN {
        i64::MIN as int
    } else {
        x
    }
}

pub open spec fn abs(x: int) -> int {
    if x < 0 {
        -x
    } else {
        x
    }
}

/// `n / d` rounded toward zero.
pub open spec fn div_trunc(n: int, d: int) -> int {
    let q = abs(n) / abs(d);
    if (n < 0) != (d < 0) {
        -q
    } else {
        q
    }
}

/// `min(max(x, lo), hi)`: the clamp that an axis test applies.
pub open spec fn clamp_to(x: int, lo: int, hi: int) -> int {
    let m = if x < lo {
        lo
    } else {
        x
    };
    if m > hi {
        hi
    } else {
        m
    }
}

/// Saturating fixed-point sum.
pub open spec fn fx_add(a: int, b: int) -> int {
    clamp_i64(a + b)
}

/// Saturating fixed-point product `a * b`.
pub open spec fn fx_mul(a: int, b: int) -> int {
    clamp_i64(div_trunc(a * b, ONE as int))
}

/// Saturating fixed-point quotient `a / b`.
pub open spec fn fx_div(a: int, b: int) -> int {
    clamp_i64(div_trunc(a * ONE, b))
}

/// Saturates an `i128` into an `i64`.
pub fn saturate(x: i128) -> (r: i64)
    ensures
        r == clamp_i64(x as int),
{
    if x > i64::MAX as i128 {
        i64::MAX
    } else if x < i64::MIN as i128 {
        i64::MIN
    } else {
        x as i64
    }
}

/// Division of wide integers rounded toward zero.
pub fn div_trunc_wide(n: i128, d: i128) -> (r: i128)
    requires
        d != 0,
        n > i128::MIN,
        d > i128::MIN,
    ensures
        r == div_trunc(n as int, d as int),
{
    let un: u128 = if n < 0 {
        (-n) as u128
    } else {
        n as u128
    };
    let ud: u128 = if d < 0 {
        (-d) as u128
    } else {
        d as u128
    };
    let q: u128 = un / ud;
    assert(q <= un) by (nonlinear_arith)
        requires
            q == un / ud,
            ud >= 1,
    ;
    if (n < 0) != (d < 0) {
        -(q as i128)
    } else {
        q as i128
    }
}

/// Saturating sum of two scalars.
pub fn add_sat(a: i64, b: i64) -> (r: i64)
    ensures
        r == fx_add(a as int, b as int),
{
    saturate(a as i128 + b as i128)
}

/// The product of two `i64` values fits in an `i128` with room to spare.
pub proof fn lemma_product_fits(a: i64, b: i64)
    ensures
        -0x4000_0000_0000_0000_0000_0000_0000_0000int <= a * b
            <= 0x4000_0000_0000_0000_0000_0000_0000_0000int,
{
    assert(-0x4000_0000_0000_0000_0000_0000_0000_0000int <= a * b
        <= 0x4000_0000_0000_0000_0000_0000_0000_0000int) by (nonlinear_arith)
        requires
            -0x8000_0000_0000_0000int <= a <= 0x7fff_ffff_ffff_ffffint,
            -0x8000_0000_0000_0000int <= b <= 0x7fff_ffff_ffff_ffffint,
    ;
}

/// Saturating fixed-point product of two scalars.
pub fn mul_fx(a: i64, b: i64) -> (r: i64)
    ensures
        r == fx_mul(a as int, b as int),
{
    proof {
        lemma_product_fits(a, b);
    }
    let p: i128 = a as i128 * b as i128;
    saturate(div_trunc_wide(p, ONE as i128))
}

/// Saturating fixed-point quotient of two scalars.
pub fn div_fx(a: i64, b: i64) -> (r: i64)
    requires
        b != 0,
    ensures
        r == fx_div(a as int, b as int),
{
    let n: i128 = a as i128 * 65536;
    saturate(div_trunc_wide(n, b as i128))
}

} // verus!
