//! A body that falls and is deflected by whatever it touches.
use vstd::prelude::*;

use crate::collision::intersects;
use crate::component::{lemma_one_body_changed, Component, InputEvent};
use crate::physics::RigidBody;
use crate::vector::Vec3;

verus! {

/// Initial vertical velocity of a ball: two units a second downward.
pub const BALL_START_SPEED: i64 = -131072;

/// Body `i` of `bodies` overlaps some other body of it.
pub open spec fn touches_other(bodies: Seq<RigidBody>, i: int) -> bool {
    exists|j: int| 0 <= j < bodies.len() && j != i && intersects(bodies[i], #[trigger] bodies[j])
}

/// The velocity after a deflection: perpendicular to the old velocity and to
/// the x axis.
pub open spec fn deflected(v: Vec3) -> Vec3 {
    v.cross_spec(Vec3 { x: crate::fixed::ONE, y: 0, z: 0 })
}

/// Collision-reactive behaviour.
pub struct Ball {}

impl Ball {
    pub fn new() -> (r: Ball)
        ensures
            r == (Ball {}),
    {
        Ball {}
    }
}

/// Whether body `i` overlaps any other body of the store.
pub fn touches_any(bodies: &Vec<RigidBody>, i: usize) -> (r: bool)
    requires
        i < bodies.len(),
    ensures
        r == touches_other(bodies@, i as int),
{
    let own = &bodies[i];
    let mut j: usize = 0;
    while j < bodies.len()
        invariant
            i < bodies.len(),
            *own == bodies@[i as int],
            j <= bodies.len(),
            forall|k: int| 0 <= k < j && k != i ==> !intersects(bodies@[i as int], #[trigger] bodies@[k]),
        decreases bodies.len() - j,
    {
        if j != i && own.is_intersecting(&bodies[j]) {
            return true;
        }
        j += 1;
    }
    false
}

impl Component for Ball {
    open spec fn start_spec(self, bodies: Seq<RigidBody>, i: int) -> (Ball, Seq<RigidBody>) {
        (
            self,
            bodies.update(
                i,
                RigidBody { velocity: Vec3 { x: 0, y: BALL_START_SPEED, z: 0 }, ..bodies[i] },
            ),
        )
    }

    open spec fn update_spec(self, dt: int, bodies: Seq<RigidBody>, i: int) -> (Ball, Seq<
        RigidBody,
    >) {
        if touches_other(bodies, i) {
            (self, bodies.update(i, RigidBody { velocity: deflected(bodies[i].velocity), ..bodies[i] }))
        } else {
            (self, bodies)
        }
    }

    open spec fn input_spec(self, event: InputEvent) -> (Ball, bool) {
        (self, false)
    }

    /// Sets the body's velocity to `(0, BALL_START_SPEED, 0)`.
    fn start(&mut self, rigidbodys: &mut Vec<RigidBody>, body_index: usize)
        ensures
            final(rigidbodys)@ == old(rigidbodys)@.update(
                body_index as int,
                RigidBody {
                    velocity: Vec3 { x: 0, y: BALL_START_SPEED, z: 0 },
                    ..old(rigidbodys)@[body_index as int]
                },
            ),
    {
        let rigidbody = &mut rigidbodys[body_index];
        rigidbody.velocity = Vec3::new(0, BALL_START_SPEED, 0);
        proof {
            lemma_one_body_changed(old(rigidbodys)@, rigidbodys@, body_index as int);
        }
    }

    /// Deflects the body's velocity when, in the store as it stands at the
    /// start of this call, the body overlaps any other body.
    fn update(&mut self, dt: i64, rigidbodys: &mut Vec<RigidBody>, body_index: usize)
        ensures
            final(rigidbodys)@ == if touches_other(old(rigidbodys)@, body_index as int) {
                old(rigidbodys)@.update(
                    body_index as int,
                    RigidBody {
                        velocity: deflected(old(rigidbodys)@[body_index as int].velocity),
                        ..old(rigidbodys)@[body_index as int]
                    },
                )
            } else {
                old(rigidbodys)@
            },
    {
        let hit = touches_any(rigidbodys, body_index);
        if hit {
            let rigidbody = &mut rigidbodys[body_index];
            rigidbody.velocity = rigidbody.velocity.cross(Vec3::unit_x());
            proof {
                lemma_one_body_changed(old(rigidbodys)@, rigidbodys@, body_index as int);
            }
        }
    }

    /// A ball claims no input.
    fn input(&mut self, event: &InputEvent) -> (r: bool)
        ensures
            !r,
    {
        false
    }
}

} // verus!
