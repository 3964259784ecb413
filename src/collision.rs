//! Overlap tests between the shapes of two rigid bodies.
//!
//! Tests use positions and shapes alone: orientations are ignored and boxes
//! are taken as axis-aligned. Touching shapes do not overlap.
use vstd::prelude::*;

use crate::fixed::{abs, clamp_to};
use crate::physics::{RigidBody, Shape};
use crate::vector::Vec3;

verus! {

pub open spec fn sq3(x: int, y: int, z: int) -> int {
    x * x + y * y + z * z
}

/// A vector whose squared length is `sq` is shorter than `r`.
pub open spec fn shorter_than(sq: int, r: int) -> bool {
    r > 0 && sq < r * r
}

/// Spheres of radii `r1`, `r2` whose centres are `d` apart overlap.
pub open spec fn spheres_overlap(d: (int, int, int), r1: int, r2: int) -> bool {
    shorter_than(sq3(d.0, d.1, d.2), r1 + r2)
}

/// Boxes of full extents `s1`, `s2` whose centres are `d` apart overlap: on
/// every axis the distance is below the sum of the half extents.
pub open spec fn boxes_overlap(d: (int, int, int), s1: Vec3, s2: Vec3) -> bool {
    &&& 2 * abs(d.0) < s1.x + s2.x
    &&& 2 * abs(d.1) < s1.y + s2.y
    &&& 2 * abs(d.2) < s1.z + s2.z
}

/// Twice the offset from a sphere centre to the nearest point of a box, on one
/// axis, where `d` is the sphere centre minus the box centre and `s` the box's
/// full extent. Doubling keeps the half extent exact.
pub open spec fn gap2(d: int, s: int) -> int {
    2 * d - clamp_to(2 * d, -s, s)
}

/// A sphere of radius `r` overlaps a box of full extents `s` when the nearest
/// point of the box is closer than `r` to the sphere's centre (`d` is the
/// sphere centre minus the box centre).
pub open spec fn sphere_box_overlap(d: (int, int, int), r: int, s: Vec3) -> bool {
    shorter_than(sq3(gap2(d.0, s.x as int), gap2(d.1, s.y as int), gap2(d.2, s.z as int)), 2 * r)
}

pub open spec fn offset(a: Vec3, b: Vec3) -> (int, int, int) {
    (a.x - b.x, a.y - b.y, a.z - b.z)
}

/// The shapes of `a` and `b` overlap.
pub open spec fn intersects(a: RigidBody, b: RigidBody) -> bool {
    match (a.shape, b.shape) {
        (Shape::Sphere(r1), Shape::Sphere(r2)) => spheres_overlap(
            offset(a.position, b.position),
            r1 as int,
            r2 as int,
        ),
        (Shape::Box(s1), Shape::Box(s2)) => boxes_overlap(offset(a.position, b.position), s1, s2),
        (Shape::Sphere(r), Shape::Box(s)) => sphere_box_overlap(
            offset(a.position, b.position),
            r as int,
            s,
        ),
        (Shape::Box(s), Shape::Sphere(r)) => sphere_box_overlap(
            offset(b.position, a.position),
            r as int,
            s,
        ),
    }
}

/// Overlap does not depend on the order of the two bodies.
pub proof fn lemma_intersects_symmetric(a: RigidBody, b: RigidBody)
    ensures
        intersects(a, b) == intersects(b, a),
{
    let (dx, dy, dz) = offset(a.position, b.position);
    let (ex, ey, ez) = offset(b.position, a.position);
    assert(sq3(dx, dy, dz) == sq3(ex, ey, ez)) by (nonlinear_arith)
        requires
            ex == -dx,
            ey == -dy,
            ez == -dz,
    ;
}

/// Two spheres whose centres lie `d >= 0` apart along the x axis overlap
/// exactly when `d` is below the sum of their radii: spheres exactly that far
/// apart only touch, and any smaller distance overlaps.
pub proof fn lemma_sphere_contact_boundary(a: RigidBody, b: RigidBody, d: int)
    requires
        a.shape is Sphere,
        b.shape is Sphere,
        d >= 0,
        a.position.x == b.position.x + d,
        a.position.y == b.position.y,
        a.position.z == b.position.z,
    ensures
        intersects(a, b) <==> d < a.shape->Sphere_0 + b.shape->Sphere_0,
{
    let r = a.shape->Sphere_0 + b.shape->Sphere_0;
    assert(sq3(d, 0, 0) == d * d);
    if r > 0 {
        assert(d * d < r * r <==> d < r) by (nonlinear_arith)
            requires
                d >= 0,
                r > 0,
        ;
    }
}

fn abs_wide(x: i128) -> (r: u128)
    requires
        x > i128::MIN,
    ensures
        r == abs(x as int),
{
    if x < 0 {
        (-x) as u128
    } else {
        x as u128
    }
}

/// `shorter_than(x² + y² + z², r)` without overflow.
fn shorter_than_exec(x: i128, y: i128, z: i128, r: i128) -> (b: bool)
    requires
        x > i128::MIN,
        y > i128::MIN,
        z > i128::MIN,
        r < 0x1_0000_0000_0000_0000,
    ensures
        b == shorter_than(sq3(x as int, y as int, z as int), r as int),
{
    if r <= 0 {
        return false;
    }
    let (ax, ay, az) = (abs_wide(x), abs_wide(y), abs_wide(z));
    let ur = r as u128;
    assert(sq3(x as int, y as int, z as int) == ax * ax + ay * ay + az * az) by (nonlinear_arith)
        requires
            ax == abs(x as int),
            ay == abs(y as int),
            az == abs(z as int),
    ;
    if ax >= ur || ay >= ur || az >= ur {
        assert(ax * ax + ay * ay + az * az >= ur * ur) by (nonlinear_arith)
            requires
                ax >= ur || ay >= ur || az >= ur,
                ur > 0,
        ;
        return false;
    }
    assert(ax * ax < ur * ur && ay * ay < ur * ur && az * az < ur * ur && ur * ur
        <= 0xffff_ffff_ffff_fffe_0000_0000_0000_0001) by (nonlinear_arith)
        requires
            ax < ur,
            ay < ur,
            az < ur,
            ur <= 0xffff_ffff_ffff_ffff,
    ;
    let r2: u128 = ur * ur;
    let sx: u128 = ax * ax;
    let sy: u128 = ay * ay;
    let sz: u128 = az * az;
    if sy >= r2 - sx {
        return false;
    }
    let sxy: u128 = sx + sy;
    if sz >= r2 - sxy {
        return false;
    }
    sxy + sz < r2
}

fn offset_exec(a: Vec3, b: Vec3) -> (r: (i128, i128, i128))
    ensures
        r.0 == offset(a, b).0,
        r.1 == offset(a, b).1,
        r.2 == offset(a, b).2,
{
    (a.x as i128 - b.x as i128, a.y as i128 - b.y as i128, a.z as i128 - b.z as i128)
}

/// Whether two boxes with full extents `s1`, `s2` on one axis, whose centres
/// are `d` apart on it, overlap on that axis.
fn axis_overlap(d: i128, s1: i64, s2: i64) -> (b: bool)
    requires
        -0x1_0000_0000_0000_0000 <= d <= 0x1_0000_0000_0000_0000,
    ensures
        b == (2 * abs(d as int) < s1 + s2),
{
    let ad: i128 = if d < 0 {
        -d
    } else {
        d
    };
    2 * ad < s1 as i128 + s2 as i128
}

fn gap2_exec(d: i128, s: i64) -> (r: i128)
    requires
        -0x1_0000_0000_0000_0000 <= d <= 0x1_0000_0000_0000_0000,
    ensures
        r == gap2(d as int, s as int),
        -0x4_0000_0000_0000_0000 <= r <= 0x4_0000_0000_0000_0000,
{
    let d2: i128 = 2 * d;
    let lo: i128 = -(s as i128);
    let hi: i128 = s as i128;
    let m: i128 = if d2 < lo {
        lo
    } else {
        d2
    };
    let c: i128 = if m > hi {
        hi
    } else {
        m
    };
    d2 - c
}

fn sphere_box_exec(d: (i128, i128, i128), r: i64, s: Vec3) -> (b: bool)
    requires
        -0x1_0000_0000_0000_0000 <= d.0 <= 0x1_0000_0000_0000_0000,
        -0x1_0000_0000_0000_0000 <= d.1 <= 0x1_0000_0000_0000_0000,
        -0x1_0000_0000_0000_0000 <= d.2 <= 0x1_0000_0000_0000_0000,
    ensures
        b == sphere_box_overlap((d.0 as int, d.1 as int, d.2 as int), r as int, s),
{
    let gx = gap2_exec(d.0, s.x);
    let gy = gap2_exec(d.1, s.y);
    let gz = gap2_exec(d.2, s.z);
    shorter_than_exec(gx, gy, gz, 2 * r as i128)
}

impl RigidBody {
    /// Whether the shapes of `self` and `other` overlap.
    pub fn is_intersecting(&self, other: &RigidBody) -> (r: bool)
        ensures
            r == intersects(*self, *other),
    {
        match (self.shape, other.shape) {
            (Shape::Sphere(radius1), Shape::Sphere(radius2)) => {
                let (dx, dy, dz) = offset_exec(self.position, other.position);
                shorter_than_exec(dx, dy, dz, radius1 as i128 + radius2 as i128)
            },
            (Shape::Box(size1), Shape::Box(size2)) => {
                let (dx, dy, dz) = offset_exec(self.position, other.position);
                axis_overlap(dx, size1.x, size2.x) && axis_overlap(dy, size1.y, size2.y)
                    && axis_overlap(dz, size1.z, size2.z)
            },
            (Shape::Sphere(radius), Shape::Box(size)) => {
                sphere_box_exec(offset_exec(self.position, other.position), radius, size)
            },
            (Shape::Box(size), Shape::Sphere(radius)) => {
                sphere_box_exec(offset_exec(other.position, self.position), radius, size)
            },
        }
    }
}

} // verus!
