//! Fixed-point quaternions for orientations.
//!
//! A quaternion is four scalars `(w, x, y, z)` in units of `1 / QONE`, a finer
//! scale than that of other quantities. An orientation is a quaternion of unit
//! length: its squared norm lies within `UNIT_SLACK` below `QONE * QONE`, the
//! rounding that renormalisation leaves (a relative error below `3e-8`).
use vstd::prelude::*;

use crate::fixed::{abs, div_trunc, div_trunc_wide, ONE};
use crate::vector::Vec3;

verus! {

/// Raw value of a quaternion component `1.0`.
pub const QONE: i64 = 268435456;

/// Squared norm of a unit quaternion in raw units: `QONE * QONE`.
pub const QONE_SQ: u64 = 72057594037927936;

/// How far below `QONE_SQ` the squared norm of a unit quaternion may fall:
/// `8 * QONE + 4`.
pub const UNIT_SLACK: i64 = 2147483652;

/// Bound on each component of the half rotation step `0.5 * angular_velocity * dt`,
/// in units of `1 / ONE`: four radians.
pub const HALF_STEP_LIMIT: i64 = 262144;

/// A quaternion `w + x i + y j + z k` of fixed-point scalars.
#[derive(Clone, Copy, Debug, PartialEq, Eq, Structural)]
pub struct Quat {
    pub w: i64,
    pub x: i64,
    pub y: i64,
    pub z: i64,
}

pub open spec fn norm_sq4(a: int, b: int, c: int, d: int) -> int {
    a * a + b * b + c * c + d * d
}

pub open spec fn is_isqrt(r: int, m: int) -> bool {
    0 <= r && r * r <= m && m < (r + 1) * (r + 1)
}

/// Integer square root: the largest `r` with `r * r <= m`.
pub open spec fn isqrt(m: int) -> int {
    choose|r: int| #[trigger] is_isqrt(r, m)
}

/// Component `c` of a vector whose squared norm is `n`, rescaled so that the
/// vector has length `QONE`, rounded toward zero.
pub open spec fn unit_component(c: int, n: int) -> int {
    let r = isqrt(c * c * QONE_SQ / n);
    if c < 0 {
        -r
    } else {
        r
    }
}

/// `(a, b, c, d)` rescaled to unit length (`n` is its squared norm).
pub open spec fn normalized_spec(a: int, b: int, c: int, d: int) -> Quat {
    let n = norm_sq4(a, b, c, d);
    Quat {
        w: unit_component(a, n) as i64,
        x: unit_component(b, n) as i64,
        y: unit_component(c, n) as i64,
        z: unit_component(d, n) as i64,
    }
}

impl Quat {
    pub open spec fn norm_sq(self) -> int {
        norm_sq4(self.w as int, self.x as int, self.y as int, self.z as int)
    }

    /// The quaternion has unit length, up to rounding.
    pub open spec fn is_unit(self) -> bool {
        QONE_SQ - UNIT_SLACK < self.norm_sq() <= QONE_SQ
    }

    /// The four components of `q + q ⊗ (0, h)` in units of `1 / QONE`, where
    /// `h` is in units of `1 / ONE`; the product term is rounded toward zero.
    pub open spec fn raw_step_w(self, h: Vec3) -> int {
        self.w + div_trunc(0 - self.x * h.x - self.y * h.y - self.z * h.z, ONE as int)
    }

    pub open spec fn raw_step_x(self, h: Vec3) -> int {
        self.x + div_trunc(self.w * h.x + self.y * h.z - self.z * h.y, ONE as int)
    }

    pub open spec fn raw_step_y(self, h: Vec3) -> int {
        self.y + div_trunc(self.w * h.y - self.x * h.z + self.z * h.x, ONE as int)
    }

    pub open spec fn raw_step_z(self, h: Vec3) -> int {
        self.z + div_trunc(self.w * h.z + self.x * h.y - self.y * h.x, ONE as int)
    }

    /// The orientation after adding `q ⊗ (0, h)` and renormalising; a
    /// degenerate (zero) sum leaves the orientation unchanged.
    pub open spec fn integrate_spec(self, h: Vec3) -> Quat {
        let a = self.raw_step_w(h);
        let b = self.raw_step_x(h);
        let c = self.raw_step_y(h);
        let d = self.raw_step_z(h);
        if norm_sq4(a, b, c, d) == 0 {
            self
        } else {
            normalized_spec(a, b, c, d)
        }
    }

    /// The identity rotation.
    pub fn identity() -> (r: Quat)
        ensures
            r == (Quat { w: QONE, x: 0, y: 0, z: 0 }),
            r.is_unit(),
    {
        Quat { w: QONE, x: 0, y: 0, z: 0 }
    }

    /// The unit quaternion in the direction of `(w, x, y, z)`; `None` for the
    /// zero quaternion, which has no direction.
    pub fn from_components(w: i32, x: i32, y: i32, z: i32) -> (r: Option<Quat>)
        ensures
            norm_sq4(w as int, x as int, y as int, z as int) == 0 <==> r is None,
            r matches Some(q) ==> q == normalized_spec(w as int, x as int, y as int, z as int)
                && q.is_unit(),
    {
        proof {
            lemma_norm_zero(w as int, x as int, y as int, z as int);
        }
        if w == 0 && x == 0 && y == 0 && z == 0 {
            None
        } else {
            Some(normalized(w as i128, x as i128, y as i128, z as i128))
        }
    }

    /// One step of the approximate orientation integrator: `q + q ⊗ (0, h)`,
    /// renormalised, where `h` is the half rotation step.
    pub fn integrate(self, h: Vec3) -> (r: Quat)
        requires
            self.is_unit(),
            -HALF_STEP_LIMIT <= h.x <= HALF_STEP_LIMIT,
            -HALF_STEP_LIMIT <= h.y <= HALF_STEP_LIMIT,
            -HALF_STEP_LIMIT <= h.z <= HALF_STEP_LIMIT,
        ensures
            r == self.integrate_spec(h),
            r.is_unit(),
    {
        proof {
            lemma_step_products(self, h);
        }
        let (w, x, y, z) = (self.w as i128, self.x as i128, self.y as i128, self.z as i128);
        let (hx, hy, hz) = (h.x as i128, h.y as i128, h.z as i128);
        let a: i128 = w + div_trunc_wide(0 - x * hx - y * hy - z * hz, 65536);
        let b: i128 = x + div_trunc_wide(w * hx + y * hz - z * hy, 65536);
        let c: i128 = y + div_trunc_wide(w * hy - x * hz + z * hx, 65536);
        let d: i128 = z + div_trunc_wide(w * hz + x * hy - y * hx, 65536);
        proof {
            lemma_norm_zero(a as int, b as int, c as int, d as int);
        }
        if a == 0 && b == 0 && c == 0 && d == 0 {
            self
        } else {
            normalized(a, b, c, d)
        }
    }
}

/// Bound on the components that `normalized` accepts, so that the squares,
/// scaled by `QONE_SQ`, fit in a `u128`.
pub open spec fn fits_normalize(c: int) -> bool {
    -0x8_0000_0000 < c < 0x8_0000_0000
}

proof fn lemma_norm_zero(a: int, b: int, c: int, d: int)
    ensures
        norm_sq4(a, b, c, d) == 0 <==> (a == 0 && b == 0 && c == 0 && d == 0),
        norm_sq4(a, b, c, d) >= 0,
{
    assert(a * a >= 0 && b * b >= 0 && c * c >= 0 && d * d >= 0) by (nonlinear_arith);
    assert(a * a == 0 ==> a == 0) by (nonlinear_arith);
    assert(b * b == 0 ==> b == 0) by (nonlinear_arith);
    assert(c * c == 0 ==> c == 0) by (nonlinear_arith);
    assert(d * d == 0 ==> d == 0) by (nonlinear_arith);
}

proof fn lemma_component_bound(q: Quat)
    requires
        q.is_unit(),
    ensures
        -QONE <= q.w <= QONE,
        -QONE <= q.x <= QONE,
        -QONE <= q.y <= QONE,
        -QONE <= q.z <= QONE,
{
    let (w, x, y, z) = (q.w as int, q.x as int, q.y as int, q.z as int);
    assert(-268435456 <= w <= 268435456 && -268435456 <= x <= 268435456 && -268435456 <= y
        <= 268435456 && -268435456 <= z <= 268435456) by (nonlinear_arith)
        requires
            w * w + x * x + y * y + z * z <= 72057594037927936,
    ;
}

proof fn lemma_small_product(a: int, b: int)
    requires
        -268435456 <= a <= 268435456,
        -262144 <= b <= 262144,
    ensures
        -0x4000_0000_0000 <= a * b <= 0x4000_0000_0000,
{
    assert(-0x4000_0000_0000 <= a * b <= 0x4000_0000_0000) by (nonlinear_arith)
        requires
            -268435456 <= a <= 268435456,
            -262144 <= b <= 262144,
    ;
}

/// Bounds on the twelve products `q_i * h_j` of one integration step.
proof fn lemma_step_products(q: Quat, h: Vec3)
    requires
        q.is_unit(),
        -HALF_STEP_LIMIT <= h.x <= HALF_STEP_LIMIT,
        -HALF_STEP_LIMIT <= h.y <= HALF_STEP_LIMIT,
        -HALF_STEP_LIMIT <= h.z <= HALF_STEP_LIMIT,
    ensures
        -QONE <= q.w <= QONE,
        -QONE <= q.x <= QONE,
        -QONE <= q.y <= QONE,
        -QONE <= q.z <= QONE,
        -0x4000_0000_0000 <= q.w * h.x <= 0x4000_0000_0000,
        -0x4000_0000_0000 <= q.w * h.y <= 0x4000_0000_0000,
        -0x4000_0000_0000 <= q.w * h.z <= 0x4000_0000_0000,
        -0x4000_0000_0000 <= q.x * h.x <= 0x4000_0000_0000,
        -0x4000_0000_0000 <= q.x * h.y <= 0x4000_0000_0000,
        -0x4000_0000_0000 <= q.x * h.z <= 0x4000_0000_0000,
        -0x4000_0000_0000 <= q.y * h.x <= 0x4000_0000_0000,
        -0x4000_0000_0000 <= q.y * h.y <= 0x4000_0000_0000,
        -0x4000_0000_0000 <= q.y * h.z <= 0x4000_0000_0000,
        -0x4000_0000_0000 <= q.z * h.x <= 0x4000_0000_0000,
        -0x4000_0000_0000 <= q.z * h.y <= 0x4000_0000_0000,
        -0x4000_0000_0000 <= q.z * h.z <= 0x4000_0000_0000,
        fits_normalize(q.raw_step_w(h)),
        fits_normalize(q.raw_step_x(h)),
        fits_normalize(q.raw_step_y(h)),
        fits_normalize(q.raw_step_z(h)),
{
    lemma_component_bound(q);
    let (w, x, y, z) = (q.w as int, q.x as int, q.y as int, q.z as int);
    let (hx, hy, hz) = (h.x as int, h.y as int, h.z as int);
    lemma_small_product(w, hx);
    lemma_small_product(w, hy);
    lemma_small_product(w, hz);
    lemma_small_product(x, hx);
    lemma_small_product(x, hy);
    lemma_small_product(x, hz);
    lemma_small_product(y, hx);
    lemma_small_product(y, hy);
    lemma_small_product(y, hz);
    lemma_small_product(z, hx);
    lemma_small_product(z, hy);
    lemma_small_product(z, hz);
    lemma_small_quotient(0 - x * hx - y * hy - z * hz);
    lemma_small_quotient(w * hx + y * hz - z * hy);
    lemma_small_quotient(w * hy - x * hz + z * hx);
    lemma_small_quotient(w * hz + x * hy - y * hx);
}

proof fn lemma_small_quotient(p: int)
    requires
        -0xc000_0000_0000 <= p <= 0xc000_0000_0000,
    ensures
        -0xc000_0000 <= div_trunc(p, ONE as int) <= 0xc000_0000,
{
    let a = abs(p);
    assert(0 <= a / 65536 <= 0xc000_0000) by (nonlinear_arith)
        requires
            0 <= a <= 0xc000_0000_0000,
    ;
}

proof fn lemma_isqrt_exists(m: nat)
    ensures
        exists|r: int| #[trigger] is_isqrt(r, m as int),
    decreases m,
{
    if m == 0 {
        assert(is_isqrt(0, 0));
    } else {
        lemma_isqrt_exists((m - 1) as nat);
        let r = choose|r: int| #[trigger] is_isqrt(r, (m - 1) as int);
        if (r + 1) * (r + 1) <= m {
            assert(m < (r + 2) * (r + 2)) by (nonlinear_arith)
                requires
                    m - 1 < (r + 1) * (r + 1),
                    r >= 0,
            ;
            assert(is_isqrt(r + 1, m as int));
        } else {
            assert(is_isqrt(r, m as int));
        }
    }
}

proof fn lemma_isqrt_unique(r: int, s: int, m: int)
    requires
        is_isqrt(r, m),
        is_isqrt(s, m),
    ensures
        r == s,
{
    assert(r == s) by (nonlinear_arith)
        requires
            0 <= r,
            0 <= s,
            r * r <= m,
            m < (r + 1) * (r + 1),
            s * s <= m,
            m < (s + 1) * (s + 1),
    ;
}

/// `isqrt(m)` has the defining property of a square root, for every `m >= 0`.
proof fn lemma_isqrt(m: int)
    requires
        m >= 0,
    ensures
        is_isqrt(isqrt(m), m),
{
    lemma_isqrt_exists(m as nat);
}

/// Integer square root of a value up to `QONE_SQ`, by bisection.
fn isqrt_u64(m: u64) -> (r: u64)
    requires
        m <= QONE_SQ,
    ensures
        r == isqrt(m as int),
        r <= QONE,
{
    let mut lo: u64 = 0;
    let mut hi: u64 = 268435457;
    assert(268435457 * 268435457 > QONE_SQ) by (nonlinear_arith);
    while hi - lo > 1
        invariant
            lo < hi <= 268435457,
            lo * lo <= m,
            m < hi * hi,
        decreases hi - lo,
    {
        let mid: u64 = lo + (hi - lo) / 2;
        assert(mid * mid <= 268435457 * 268435457) by (nonlinear_arith)
            requires
                mid <= 268435457,
        ;
        if mid * mid <= m {
            lo = mid;
        } else {
            hi = mid;
        }
    }
    proof {
        assert(hi == lo + 1);
        lemma_isqrt(m as int);
        lemma_isqrt_unique(lo as int, isqrt(m as int), m as int);
        assert(lo <= 268435456) by (nonlinear_arith)
            requires
                lo * lo <= m,
                m <= 72057594037927936,
        ;
    }
    lo
}

/// Facts about the quotient `m = c * c * QONE_SQ / n` of one component.
proof fn lemma_scaled_square(c: int, n: int)
    requires
        n > 0,
        c * c <= n,
    ensures
        0 <= c * c * QONE_SQ / n <= QONE_SQ,
        (c * c * QONE_SQ / n) * n <= c * c * QONE_SQ,
        c * c * QONE_SQ < (c * c * QONE_SQ / n + 1) * n,
{
    let x = c * c * QONE_SQ;
    let m = x / n;
    vstd::arithmetic::div_mod::lemma_fundamental_div_mod(x, n);
    let rem = x % n;
    assert(0 <= rem < n);
    assert(x >= 0) by (nonlinear_arith)
        requires
            x == c * c * 72057594037927936,
    ;
    assert(0 <= m <= QONE_SQ && m * n <= x && x < (m + 1) * n) by (nonlinear_arith)
        requires
            x == n * m + rem,
            0 <= rem < n,
            x >= 0,
            x == c * c * 72057594037927936,
            c * c <= n,
            n > 0,
    ;
}

/// Rescaling any nonzero vector to unit length gives a unit quaternion.
pub proof fn lemma_normalized_is_unit(a: int, b: int, c: int, d: int)
    requires
        norm_sq4(a, b, c, d) > 0,
    ensures
        normalized_spec(a, b, c, d).is_unit(),
{
    let n = norm_sq4(a, b, c, d);
    assert(a * a >= 0 && b * b >= 0 && c * c >= 0 && d * d >= 0) by (nonlinear_arith);
    lemma_scaled_square(a, n);
    lemma_scaled_square(b, n);
    lemma_scaled_square(c, n);
    lemma_scaled_square(d, n);
    let ma = a * a * QONE_SQ / n;
    let mb = b * b * QONE_SQ / n;
    let mc = c * c * QONE_SQ / n;
    let md = d * d * QONE_SQ / n;
    let s = QONE_SQ as int;
    let total = ma + mb + mc + md;
    assert(total * n == ma * n + mb * n + mc * n + md * n) by (nonlinear_arith)
        requires
            total == ma + mb + mc + md,
    ;
    assert((total + 4) * n == (ma + 1) * n + (mb + 1) * n + (mc + 1) * n + (md + 1) * n) by (
    nonlinear_arith)
        requires
            total == ma + mb + mc + md,
    ;
    assert(a * a * s + b * b * s + c * c * s + d * d * s == n * s) by (nonlinear_arith)
        requires
            n == a * a + b * b + c * c + d * d,
    ;
    assert(total <= s) by (nonlinear_arith)
        requires
            total * n <= n * s,
            n > 0,
    ;
    assert(s < total + 4) by (nonlinear_arith)
        requires
            n * s < (total + 4) * n,
            n > 0,
    ;
    lemma_isqrt(ma);
    lemma_isqrt(mb);
    lemma_isqrt(mc);
    lemma_isqrt(md);
    let (ra, rb, rc, rd) = (isqrt(ma), isqrt(mb), isqrt(mc), isqrt(md));
    lemma_root_bound(ra, ma);
    lemma_root_bound(rb, mb);
    lemma_root_bound(rc, mc);
    lemma_root_bound(rd, md);
    let q = normalized_spec(a, b, c, d);
    lemma_signed_square(q.w as int, ra);
    lemma_signed_square(q.x as int, rb);
    lemma_signed_square(q.y as int, rc);
    lemma_signed_square(q.z as int, rd);
    assert(QONE_SQ - UNIT_SLACK < ra * ra + rb * rb + rc * rc + rd * rd <= QONE_SQ) by (
    nonlinear_arith)
        requires
            ma + mb + mc + md <= 72057594037927936,
            72057594037927936 < ma + mb + mc + md + 4,
            is_isqrt(ra, ma),
            is_isqrt(rb, mb),
            is_isqrt(rc, mc),
            is_isqrt(rd, md),
            ra <= 268435456,
            rb <= 268435456,
            rc <= 268435456,
            rd <= 268435456,
    ;
}

proof fn lemma_signed_square(v: int, r: int)
    requires
        v == r || v == -r,
    ensures
        v * v == r * r,
{
    assert(v * v == r * r) by (nonlinear_arith)
        requires
            v == r || v == -r,
    ;
}

proof fn lemma_root_bound(r: int, m: int)
    requires
        is_isqrt(r, m),
        m <= QONE_SQ,
    ensures
        r <= QONE,
{
    assert(r <= 268435456) by (nonlinear_arith)
        requires
            0 <= r,
            r * r <= m,
            m <= 72057594037927936,
    ;
}

/// `unit_component(c, n)` computed on wide integers.
fn unit_component_exec(c: i128, n: u128) -> (r: i64)
    requires
        fits_normalize(c as int),
        n > 0,
        c * c <= n,
    ensures
        r == unit_component(c as int, n as int),
        -QONE <= r <= QONE,
{
    let ac: u128 = if c < 0 {
        (-c) as u128
    } else {
        c as u128
    };
    assert(ac * ac * QONE_SQ < 0x1_0000_0000_0000_0000_0000_0000_0000_0000) by (nonlinear_arith)
        requires
            ac < 0x8_0000_0000,
    ;
    assert(ac * ac == c * c) by (nonlinear_arith)
        requires
            ac == abs(c as int),
    ;
    let x: u128 = ac * ac * 72057594037927936;
    proof {
        lemma_scaled_square(c as int, n as int);
    }
    let m: u128 = x / n;
    let r: u64 = isqrt_u64(m as u64);
    if c < 0 {
        -(r as i64)
    } else {
        r as i64
    }
}

/// `(a, b, c, d)` rescaled to unit length.
fn normalized(a: i128, b: i128, c: i128, d: i128) -> (r: Quat)
    requires
        fits_normalize(a as int),
        fits_normalize(b as int),
        fits_normalize(c as int),
        fits_normalize(d as int),
        norm_sq4(a as int, b as int, c as int, d as int) > 0,
    ensures
        r == normalized_spec(a as int, b as int, c as int, d as int),
        r.is_unit(),
{
    let ua: u128 = if a < 0 {
        (-a) as u128
    } else {
        a as u128
    };
    let ub: u128 = if b < 0 {
        (-b) as u128
    } else {
        b as u128
    };
    let uc: u128 = if c < 0 {
        (-c) as u128
    } else {
        c as u128
    };
    let ud: u128 = if d < 0 {
        (-d) as u128
    } else {
        d as u128
    };
    assert(ua * ua + ub * ub + uc * uc + ud * ud == norm_sq4(a as int, b as int, c as int, d as int)
        && ua * ua + ub * ub + uc * uc + ud * ud < 0x1_0000_0000_0000_0000_0000_0000_0000)
        by (nonlinear_arith)
        requires
            ua == abs(a as int),
            ub == abs(b as int),
            uc == abs(c as int),
            ud == abs(d as int),
            ua < 0x8_0000_0000,
            ub < 0x8_0000_0000,
            uc < 0x8_0000_0000,
            ud < 0x8_0000_0000,
    ;
    let n: u128 = ua * ua + ub * ub + uc * uc + ud * ud;
    assert(a * a <= n && b * b <= n && c * c <= n && d * d <= n) by (nonlinear_arith)
        requires
            n == a * a + b * b + c * c + d * d,
    ;
    let r = Quat {
        w: unit_component_exec(a, n),
        x: unit_component_exec(b, n),
        y: unit_component_exec(c, n),
        z: unit_component_exec(d, n),
    };
    proof {
        lemma_normalized_is_unit(a as int, b as int, c as int, d as int);
    }
    r
}

} // verus!
