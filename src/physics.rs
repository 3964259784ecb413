//! Rigid bodies and their integration.
use vstd::prelude::*;

use crate::fixed::{
    abs, add_sat, clamp_i64, clamp_to, lemma_product_fits, saturate, div_fx, div_trunc, div_trunc_wide, fx_add, fx_div, fx_mul, mul_fx, ONE,
};
use crate::quat::{lemma_normalized_is_unit, norm_sq4, Quat, HALF_STEP_LIMIT};
use crate::vector::Vec3;

verus! {

/// The collision shape of a body, centred on its position.
#[derive(Clone, Copy, Debug, PartialEq, Eq, Structural)]
pub enum Shape {
    /// A sphere of the given radius.
    Sphere(i64),
    /// An axis-aligned box of the given full width, height and depth.
    Box(Vec3),
}

/// The physical state of one entity.
#[derive(Clone, Copy, Debug, PartialEq, Eq, Structural)]
pub struct RigidBody {
    pub position: Vec3,
    pub rotation: Quat,
    pub velocity: Vec3,
    pub acceleration: Vec3,
    pub angular_velocity: Vec3,
    pub mass: i64,
    pub shape: Shape,
}

/// One component of the half rotation step `0.5 * w * dt`, bounded by
/// `HALF_STEP_LIMIT`.
pub open spec fn half_angle(w: int, dt: int) -> int {
    clamp_to(div_trunc(w * dt, 2 * ONE), -HALF_STEP_LIMIT as int, HALF_STEP_LIMIT as int)
}

fn half_angle_exec(w: i64, dt: i64) -> (r: i64)
    ensures
        r == half_angle(w as int, dt as int),
{
    proof {
        lemma_product_fits(w, dt);
    }
    let q: i128 = div_trunc_wide(w as i128 * dt as i128, 131072);
    if q < -(HALF_STEP_LIMIT as i128) {
        -HALF_STEP_LIMIT
    } else if q > HALF_STEP_LIMIT as i128 {
        HALF_STEP_LIMIT
    } else {
        q as i64
    }
}

/// One component of `I⁻¹ t` in raw units, where the inertia entry is
/// `m * q / k` in real units (`q` a sum of raw squared extents): the real value
/// `k t / (m q)` times `ONE³` for the scaling, rounded toward zero and
/// saturated.
pub open spec fn inverse_inertia_term(t: int, k: int, m: int, q: int) -> int {
    clamp_i64(div_trunc(k * t * 0x1_0000_0000_0000, m * q))
}

/// `x * x` as an unsigned wide integer.
fn square(x: i64) -> (r: u128)
    ensures
        r == x * x,
        r <= 0x4000_0000_0000_0000_0000_0000_0000_0000,
{
    let a: u128 = if x < 0 {
        (-(x as i128)) as u128
    } else {
        x as u128
    };
    assert(a * a == x * x && a * a <= 0x4000_0000_0000_0000_0000_0000_0000_0000) by (
    nonlinear_arith)
        requires
            a == abs(x as int),
            a <= 0x8000_0000_0000_0000,
    ;
    a * a
}

/// Nested truncating division equals division by the product, for a positive
/// second divisor.
proof fn lemma_div_trunc_twice(n: int, m: int, q: int)
    requires
        m != 0,
        q > 0,
    ensures
        div_trunc(div_trunc(n, m), q) == div_trunc(n, m * q),
{
    let (an, am) = (abs(n), abs(m));
    vstd::arithmetic::div_mod::lemma_div_denominator(an, am, q);
    assert(abs(m * q) == am * q) by (nonlinear_arith)
        requires
            q > 0,
            am == abs(m),
    ;
    assert((m * q < 0) == (m < 0)) by (nonlinear_arith)
        requires
            q > 0,
            m != 0,
    ;
    assert(an / am >= 0) by (nonlinear_arith)
        requires
            an >= 0,
            am > 0,
    ;
}

/// `inverse_inertia_term(t, k, m, q)` for `k` of 5 or 12.
fn inverse_inertia_apply(t: i64, k: i64, m: i128, q: u128) -> (r: i64)
    requires
        k == 5 || k == 12,
        m != 0,
        -0x1_0000_0000_0000_0000 <= m <= 0x1_0000_0000_0000_0000,
        0 < q <= 0x8000_0000_0000_0000_0000_0000_0000_0000,
    ensures
        r == inverse_inertia_term(t as int, k as int, m as int, q as int),
{
    assert(-0x10_0000_0000_0000_0000_0000_0000_0000 <= k * t * 0x1_0000_0000_0000
        <= 0x10_0000_0000_0000_0000_0000_0000_0000) by (nonlinear_arith)
        requires
            k == 5 || k == 12,
            -0x8000_0000_0000_0000int <= t <= 0x7fff_ffff_ffff_ffffint,
    ;
    let n: i128 = k as i128 * t as i128 * 0x1_0000_0000_0000;
    let a: i128 = div_trunc_wide(n, m);
    assert(abs(a as int) <= abs(n as int)) by (nonlinear_arith)
        requires
            a == div_trunc(n as int, m as int),
            m != 0,
    ;
    let ua: u128 = if a < 0 {
        (-a) as u128
    } else {
        a as u128
    };
    let b: u128 = ua / q;
    assert(b <= ua) by (nonlinear_arith)
        requires
            b == ua / q,
            q >= 1,
    ;
    let c: i128 = if a < 0 {
        -(b as i128)
    } else {
        b as i128
    };
    proof {
        lemma_div_trunc_twice(n as int, m as int, q as int);
    }
    saturate(c)
}

impl RigidBody {
    /// The body's orientation is a unit quaternion.
    pub open spec fn wf(self) -> bool {
        self.rotation.is_unit()
    }

    pub open spec fn half_step(self, dt: int) -> Vec3 {
        Vec3 {
            x: half_angle(self.angular_velocity.x as int, dt) as i64,
            y: half_angle(self.angular_velocity.y as int, dt) as i64,
            z: half_angle(self.angular_velocity.z as int, dt) as i64,
        }
    }

    /// The state after one semi-implicit Euler step of length `dt`.
    pub open spec fn stepped(self, dt: int) -> RigidBody {
        let velocity = self.velocity.add_spec(self.acceleration.scale_spec(dt));
        RigidBody {
            velocity,
            position: self.position.add_spec(velocity.scale_spec(dt)),
            rotation: self.rotation.integrate_spec(self.half_step(dt)),
            ..self
        }
    }

    /// Diagonal of the inertia tensor.
    pub open spec fn inertia_spec(self) -> Vec3 {
        let m = self.mass as int;
        match self.shape {
            Shape::Box(size) => {
                let x = fx_mul(size.x as int, size.x as int);
                let y = fx_mul(size.y as int, size.y as int);
                let z = fx_mul(size.z as int, size.z as int);
                let i = div_trunc(m, 12);
                Vec3 {
                    x: fx_mul(i, fx_add(y, z)) as i64,
                    y: fx_mul(i, fx_add(x, z)) as i64,
                    z: fx_mul(i, fx_add(x, y)) as i64,
                }
            },
            Shape::Sphere(radius) => {
                let i = fx_mul(fx_mul(div_trunc(2 * m, 5), radius as int), radius as int);
                Vec3 { x: i as i64, y: i as i64, z: i as i64 }
            },
        }
    }

    /// The inertia tensor can be inverted: the mass is nonzero, and so is
    /// the sum of squared extents that enters each diagonal entry.
    pub open spec fn torque_defined(self) -> bool {
        &&& self.mass != 0
        &&& match self.shape {
            Shape::Box(s) => {
                &&& s.y * s.y + s.z * s.z != 0
                &&& s.x * s.x + s.z * s.z != 0
                &&& s.x * s.x + s.y * s.y != 0
            },
            Shape::Sphere(r) => r != 0,
        }
    }

    /// `I⁻¹ t`, computed from the exact inverse of the diagonal inertia
    /// tensor: `12 / (m (h² + d²))` (and so on) for a box, `5 / (2 m r²)` for
    /// a sphere.
    pub open spec fn inverse_inertia_times(self, t: Vec3) -> Vec3 {
        let m = self.mass as int;
        match self.shape {
            Shape::Box(s) => {
                let (xx, yy, zz) = (s.x * s.x, s.y * s.y, s.z * s.z);
                Vec3 {
                    x: inverse_inertia_term(t.x as int, 12, m, yy + zz) as i64,
                    y: inverse_inertia_term(t.y as int, 12, m, xx + zz) as i64,
                    z: inverse_inertia_term(t.z as int, 12, m, xx + yy) as i64,
                }
            },
            Shape::Sphere(r) => {
                let rr = r * r;
                Vec3 {
                    x: inverse_inertia_term(t.x as int, 5, 2 * m, rr) as i64,
                    y: inverse_inertia_term(t.y as int, 5, 2 * m, rr) as i64,
                    z: inverse_inertia_term(t.z as int, 5, 2 * m, rr) as i64,
                }
            },
        }
    }

    /// A body with the given state, no angular velocity and a unit box shape.
    pub fn new(position: Vec3, rotation: Quat, velocity: Vec3, acceleration: Vec3, mass: i64) -> (r:
        RigidBody)
        ensures
            r == (RigidBody {
                position,
                rotation,
                velocity,
                acceleration,
                mass,
                angular_velocity: Vec3 { x: 0, y: 0, z: 0 },
                shape: Shape::Box(Vec3 { x: ONE, y: ONE, z: ONE }),
            }),
    {
        RigidBody {
            position,
            rotation,
            velocity,
            acceleration,
            mass,
            angular_velocity: Vec3::zero(),
            shape: Shape::Box(Vec3::new(ONE, ONE, ONE)),
        }
    }

    /// Advances the body by `dt`: velocity from acceleration, then position
    /// from the new velocity, then orientation from the angular velocity.
    pub fn update(&mut self, delta_time: i64)
        requires
            old(self).wf(),
        ensures
            *final(self) == old(self).stepped(delta_time as int),
            final(self).wf(),
    {
        let acceleration = self.acceleration;
        self.velocity = self.velocity.add(acceleration.scale(delta_time));
        self.position = self.position.add(self.velocity.scale(delta_time));
        self.update_rotation(delta_time);
    }

    fn update_rotation(&mut self, delta_time: i64)
        requires
            old(self).wf(),
        ensures
            *final(self) == (RigidBody {
                rotation: old(self).rotation.integrate_spec(old(self).half_step(delta_time as int)),
                ..*old(self)
            }),
            final(self).wf(),
    {
        let w = self.angular_velocity;
        let half = Vec3::new(
            half_angle_exec(w.x, delta_time),
            half_angle_exec(w.y, delta_time),
            half_angle_exec(w.z, delta_time),
        );
        self.rotation = self.rotation.integrate(half);
    }

    /// Adds `torque` through the inverse inertia tensor to the angular velocity.
    pub fn add_torque_impulse(&mut self, torque: Vec3)
        requires
            old(self).torque_defined(),
        ensures
            *final(self) == (RigidBody {
                angular_velocity: old(self).angular_velocity.add_spec(
                    old(self).inverse_inertia_times(torque),
                ),
                ..*old(self)
            }),
    {
        let m = self.mass as i128;
        let delta = match self.shape {
            Shape::Box(size) => {
                let (xx, yy, zz) = (square(size.x), square(size.y), square(size.z));
                Vec3::new(
                    inverse_inertia_apply(torque.x, 12, m, yy + zz),
                    inverse_inertia_apply(torque.y, 12, m, xx + zz),
                    inverse_inertia_apply(torque.z, 12, m, xx + yy),
                )
            },
            Shape::Sphere(radius) => {
                let rr = square(radius);
                assert(radius * radius > 0) by (nonlinear_arith)
                    requires
                        radius != 0,
                ;
                Vec3::new(
                    inverse_inertia_apply(torque.x, 5, 2 * m, rr),
                    inverse_inertia_apply(torque.y, 5, 2 * m, rr),
                    inverse_inertia_apply(torque.z, 5, 2 * m, rr),
                )
            },
        };
        self.angular_velocity = self.angular_velocity.add(delta);
    }

    /// Accumulates `force / mass` into the acceleration.
    pub fn add_force(&mut self, force: Vec3)
        requires
            old(self).mass > 0,
        ensures
            *final(self) == (RigidBody {
                acceleration: old(self).acceleration.add_spec(force.div_spec(old(self).mass as int)),
                ..*old(self)
            }),
    {
        self.acceleration = self.acceleration.add(force.div_scalar(self.mass));
    }

    /// Diagonal of the inertia tensor: `m / 12 * (h² + d², w² + d², w² + h²)`
    /// for a box, `2 / 5 * m * r²` on each axis for a sphere.
    pub fn moment_of_inertia(&self) -> (r: Vec3)
        ensures
            r == self.inertia_spec(),
    {
        match self.shape {
            Shape::Box(size) => {
                let x = mul_fx(size.x, size.x);
                let y = mul_fx(size.y, size.y);
                let z = mul_fx(size.z, size.z);
                let i = div_trunc_wide(self.mass as i128, 12) as i64;
                Vec3::new(mul_fx(i, add_sat(y, z)), mul_fx(i, add_sat(x, z)), mul_fx(i, add_sat(x, y)))
            },
            Shape::Sphere(radius) => {
                let m = div_trunc_wide(2 * self.mass as i128, 5);
                assert(abs(2 * self.mass) / 5 <= 0x4000_0000_0000_0000);
                let m = m as i64;
                let i = mul_fx(mul_fx(m, radius), radius);
                Vec3::new(i, i, i)
            },
        }
    }
}

/// The body reached from `body` by steps of the lengths in `dts`, in order.
pub open spec fn trajectory(body: RigidBody, dts: Seq<i64>) -> RigidBody
    decreases dts.len(),
{
    if dts.len() == 0 {
        body
    } else {
        trajectory(body.stepped(dts[0] as int), dts.drop_first())
    }
}

/// One step keeps the orientation a unit quaternion.
pub proof fn lemma_step_keeps_unit(body: RigidBody, dt: int)
    requires
        body.wf(),
    ensures
        body.stepped(dt).wf(),
{
    let q = body.rotation;
    let h = body.half_step(dt);
    let (a, b, c, d) = (q.raw_step_w(h), q.raw_step_x(h), q.raw_step_y(h), q.raw_step_z(h));
    if norm_sq4(a, b, c, d) != 0 {
        assert(a * a >= 0 && b * b >= 0 && c * c >= 0 && d * d >= 0) by (nonlinear_arith);
        lemma_normalized_is_unit(a, b, c, d);
    }
}

/// However many steps are taken, and of whatever lengths, a body whose
/// orientation starts as a unit quaternion keeps a unit quaternion.
pub proof fn lemma_rotation_stays_unit(body: RigidBody, dts: Seq<i64>)
    requires
        body.wf(),
    ensures
        trajectory(body, dts).wf(),
    decreases dts.len(),
{
    if dts.len() > 0 {
        lemma_step_keeps_unit(body, dts[0] as int);
        lemma_rotation_stays_unit(body.stepped(dts[0] as int), dts.drop_first());
    }
}

/// Integration is deterministic: equal starting states and equal sequences of
/// step lengths give equal trajectories, step by step.
pub proof fn lemma_trajectory_deterministic(a: RigidBody, b: RigidBody, dts: Seq<i64>, k: int)
    requires
        a == b,
        0 <= k <= dts.len(),
    ensures
        trajectory(a, dts.take(k)) == trajectory(b, dts.take(k)),
{
}

} // verus!
