//! Three-component fixed-point vectors.
use vstd::prelude::*;

use crate::fixed::{
    abs, add_sat, clamp_i64, lemma_product_fits, div_fx, div_trunc, div_trunc_wide, fx_add, fx_div, fx_mul, mul_fx, saturate,
    ONE,
};

verus! {

/// A vector of three fixed-point scalars.
#[derive(Clone, Copy, Debug, PartialEq, Eq, Structural)]
pub struct Vec3 {
    pub x: i64,
    pub y: i64,
    pub z: i64,
}

/// One component of the fixed-point cross product: `(p - q) / ONE`, saturated,
/// where `p` and `q` are the two raw products.
pub open spec fn cross_term(p: int, q: int) -> int {
    clamp_i64(div_trunc(p - q, ONE as int))
}

impl Vec3 {
    pub open spec fn add_spec(self, o: Vec3) -> Vec3 {
        Vec3 {
            x: fx_add(self.x as int, o.x as int) as i64,
            y: fx_add(self.y as int, o.y as int) as i64,
            z: fx_add(self.z as int, o.z as int) as i64,
        }
    }

    pub open spec fn scale_spec(self, s: int) -> Vec3 {
        Vec3 {
            x: fx_mul(self.x as int, s) as i64,
            y: fx_mul(self.y as int, s) as i64,
            z: fx_mul(self.z as int, s) as i64,
        }
    }

    pub open spec fn div_spec(self, s: int) -> Vec3 {
        Vec3 {
            x: fx_div(self.x as int, s) as i64,
            y: fx_div(self.y as int, s) as i64,
            z: fx_div(self.z as int, s) as i64,
        }
    }

    pub open spec fn cross_spec(self, o: Vec3) -> Vec3 {
        Vec3 {
            x: cross_term(self.y * o.z, self.z * o.y) as i64,
            y: cross_term(self.z * o.x, self.x * o.z) as i64,
            z: cross_term(self.x * o.y, self.y * o.x) as i64,
        }
    }

    pub fn new(x: i64, y: i64, z: i64) -> (r: Vec3)
        ensures
            r == (Vec3 { x, y, z }),
    {
        Vec3 { x, y, z }
    }

    pub fn zero() -> (r: Vec3)
        ensures
            r == (Vec3 { x: 0, y: 0, z: 0 }),
    {
        Vec3 { x: 0, y: 0, z: 0 }
    }

    /// The unit vector along the x axis.
    pub fn unit_x() -> (r: Vec3)
        ensures
            r == (Vec3 { x: ONE, y: 0, z: 0 }),
    {
        Vec3 { x: ONE, y: 0, z: 0 }
    }

    /// Component-wise saturating sum.
    pub fn add(self, o: Vec3) -> (r: Vec3)
        ensures
            r == self.add_spec(o),
    {
        Vec3 { x: add_sat(self.x, o.x), y: add_sat(self.y, o.y), z: add_sat(self.z, o.z) }
    }

    /// Every component multiplied by the scalar `s`.
    pub fn scale(self, s: i64) -> (r: Vec3)
        ensures
            r == self.scale_spec(s as int),
    {
        Vec3 { x: mul_fx(self.x, s), y: mul_fx(self.y, s), z: mul_fx(self.z, s) }
    }

    /// Every component divided by the scalar `s`.
    pub fn div_scalar(self, s: i64) -> (r: Vec3)
        requires
            s != 0,
        ensures
            r == self.div_spec(s as int),
    {
        Vec3 { x: div_fx(self.x, s), y: div_fx(self.y, s), z: div_fx(self.z, s) }
    }

    /// Cross product `self × o`.
    pub fn cross(self, o: Vec3) -> (r: Vec3)
        ensures
            r == self.cross_spec(o),
    {
        Vec3 {
            x: cross_component(self.y, o.z, self.z, o.y),
            y: cross_component(self.z, o.x, self.x, o.z),
            z: cross_component(self.x, o.y, self.y, o.x),
        }
    }
}

/// A difference of at least `2^80` raw units saturates once divided by `ONE`.
proof fn lemma_big_quotient(n: int)
    requires
        abs_ge(n, 0x1_0000_0000_0000_0000_0000int),
    ensures
        abs_ge(div_trunc(n, ONE as int), 0x1_0000_0000_0000_0000int),
{
    let a = abs(n);
    assert(a / 65536 >= 0x1_0000_0000_0000_0000int) by (nonlinear_arith)
        requires
            a >= 0x1_0000_0000_0000_0000_0000int,
    ;
}

spec fn abs_ge(n: int, k: int) -> bool {
    n >= k || n <= -k
}

/// `(a * b - c * d) / ONE`, saturated. When the two products have opposite
/// signs and one of them is large, the difference may not fit in an `i128`,
/// but the quotient saturates anyway.
fn cross_component(a: i64, b: i64, c: i64, d: i64) -> (r: i64)
    ensures
        r == cross_term(a * b, c * d),
{
    proof {
        lemma_product_fits(a, b);
        lemma_product_fits(c, d);
    }
    let p: i128 = a as i128 * b as i128;
    let q: i128 = c as i128 * d as i128;
    let big: i128 = 0x1_0000_0000_0000_0000_0000;
    if p >= 0 && q < 0 && (p >= big || q <= -big) {
        proof {
            lemma_big_quotient(p - q);
        }
        i64::MAX
    } else if p < 0 && q > 0 && (p <= -big || q >= big) {
        proof {
            lemma_big_quotient(p - q);
        }
        i64::MIN
    } else {
        let n: i128 = p - q;
        saturate(div_trunc_wide(n, 65536))
    }
}

} // verus!
