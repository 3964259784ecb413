//! Entities: a cached transform for rendering, a handle to a rigid body in the
//! shared store, and an optional behaviour.
use vstd::prelude::*;

use crate::ball::Ball;
use crate::component::{bodies_wf, Component, InputEvent, KeyCode};
use crate::fixed::ONE;
use crate::paddle::Paddle;
use crate::physics::{RigidBody, Shape};
use crate::quat::Quat;
use crate::vector::Vec3;

verus! {

/// One spawned entity.
pub struct Instance<C> {
    position: Vec3,
    rotation: Quat,
    rigid_body: usize,
    component: Option<C>,
    started: bool,
    /// How many times the behaviour's `start` has run.
    starts: Ghost<nat>,
}

/// The body that spawning places at `position` with orientation `rotation`:
/// at rest, of mass one, with a unit box shape.
pub open spec fn spawned_body(position: Vec3, rotation: Quat) -> RigidBody {
    RigidBody {
        position,
        rotation,
        velocity: Vec3 { x: 0, y: 0, z: 0 },
        acceleration: Vec3 { x: 0, y: 0, z: 0 },
        angular_velocity: Vec3 { x: 0, y: 0, z: 0 },
        mass: ONE,
        shape: Shape::Box(Vec3 { x: ONE, y: ONE, z: ONE }),
    }
}

/// The store with body `h` integrated over `dt`.
pub open spec fn integrated(bodies: Seq<RigidBody>, h: int, dt: int) -> Seq<RigidBody> {
    bodies.update(h, bodies[h].stepped(dt))
}

/// The behaviour and the store after the behaviour's part of one frame of an
/// instance bound to body `h`: a behaviour that has not `started` starts,
/// then it updates. Without a behaviour the store is left as it is.
pub open spec fn behave_spec<C: Component>(
    component: Option<C>,
    started: bool,
    dt: int,
    bodies: Seq<RigidBody>,
    h: int,
) -> (Option<C>, Seq<RigidBody>) {
    match component {
        None => (None, bodies),
        Some(c) => {
            let first = if started {
                (c, bodies)
            } else {
                c.start_spec(bodies, h)
            };
            let after = first.0.update_spec(dt, first.1, h);
            (Some(after.0), after.1)
        },
    }
}

/// The behaviour and the store after one frame of an instance bound to body
/// `h`: the behaviour's part, then the integration of the body.
pub open spec fn frame_spec<C: Component>(
    component: Option<C>,
    started: bool,
    dt: int,
    bodies: Seq<RigidBody>,
    h: int,
) -> (Option<C>, Seq<RigidBody>) {
    let r = behave_spec(component, started, dt, bodies, h);
    (r.0, integrated(r.1, h, dt))
}

/// The behaviour after being offered `event`.
pub open spec fn input_behavior<C: Component>(component: Option<C>, event: InputEvent) -> Option<
    C,
> {
    match component {
        None => None,
        Some(c) => Some(c.input_spec(event).0),
    }
}

impl<C: Component> Instance<C> {
    pub closed spec fn body_handle(self) -> usize {
        self.rigid_body
    }

    pub closed spec fn is_started(self) -> bool {
        self.started
    }

    /// How many times the behaviour's `start` has been called.
    pub closed spec fn start_count(self) -> nat {
        self.starts@
    }

    pub closed spec fn behavior(self) -> Option<C> {
        self.component
    }

    pub open spec fn has_component(self) -> bool {
        self.behavior() is Some
    }

    pub closed spec fn cached_position(self) -> Vec3 {
        self.position
    }

    pub closed spec fn cached_rotation(self) -> Quat {
        self.rotation
    }

    /// `start` has been called once if the instance has started, and never
    /// otherwise; only an instance with a behaviour starts.
    pub open spec fn wf(self) -> bool {
        &&& self.start_count() == (if self.is_started() {
            1nat
        } else {
            0nat
        })
        &&& self.is_started() ==> self.has_component()
    }

    /// The instance has left its first frame behind: a behaviour, if it has
    /// one, has started exactly once.
    pub open spec fn running(self) -> bool {
        &&& self.is_started() == self.has_component()
        &&& self.start_count() == (if self.has_component() {
            1nat
        } else {
            0nat
        })
    }

    /// The instance and the store after one frame of length `dt`.
    pub closed spec fn frame(self, dt: int, bodies: Seq<RigidBody>) -> (Instance<C>, Seq<RigidBody>) {
        let h = self.rigid_body as int;
        let r = frame_spec(self.component, self.started, dt, bodies, h);
        (
            Instance {
                position: r.1[h].position,
                rotation: r.1[h].rotation,
                rigid_body: self.rigid_body,
                component: r.0,
                started: self.started || self.component is Some,
                starts: Ghost(
                    self.starts@ + (if !self.started && self.component is Some {
                        1nat
                    } else {
                        0nat
                    }),
                ),
            },
            r.1,
        )
    }

    /// The instance after `event` has been offered to its behaviour.
    pub closed spec fn after_input(self, event: InputEvent) -> Instance<C> {
        Instance { component: input_behavior(self.component, event), ..self }
    }

    /// Input changes only the behaviour.
    pub proof fn lemma_after_input(self, event: InputEvent)
        ensures
            self.after_input(event).behavior() == input_behavior(self.behavior(), event),
            self.after_input(event).body_handle() == self.body_handle(),
            self.after_input(event).is_started() == self.is_started(),
            self.after_input(event).start_count() == self.start_count(),
            self.after_input(event).cached_position() == self.cached_position(),
            self.after_input(event).cached_rotation() == self.cached_rotation(),
    {
    }

    /// A new, not yet started instance bound to body `rigid_body`.
    pub fn new(position: Vec3, rotation: Quat, rigid_body: usize, component: Option<C>) -> (r: Self)
        ensures
            r.wf(),
            r.cached_position() == position,
            r.cached_rotation() == rotation,
            r.body_handle() == rigid_body,
            r.behavior() == component,
            !r.is_started(),
            r.start_count() == 0,
    {
        Instance { position, rotation, rigid_body, component, started: false, starts: Ghost(0) }
    }

    /// The cached position, as of the last update.
    pub fn position(&self) -> (r: Vec3)
        ensures
            r == self.cached_position(),
    {
        self.position
    }

    /// The cached orientation, as of the last update.
    pub fn rotation(&self) -> (r: Quat)
        ensures
            r == self.cached_rotation(),
    {
        self.rotation
    }

    /// The handle of the instance's body in the store.
    pub fn rigid_body(&self) -> (r: usize)
        ensures
            r == self.body_handle(),
    {
        self.rigid_body
    }

    /// Whether the behaviour has been started.
    pub fn started(&self) -> (r: bool)
        ensures
            r == self.is_started(),
    {
        self.started
    }

    /// One frame: on the first frame the behaviour starts; then the behaviour
    /// updates, the body is integrated over `delta_time`, and the body's new
    /// transform is cached.
    pub fn update(&mut self, delta_time: i64, rigidbodys: &mut Vec<RigidBody>)
        requires
            old(self).wf(),
            old(self).body_handle() < old(rigidbodys).len(),
            bodies_wf(old(rigidbodys)@),
        ensures
            (*final(self), final(rigidbodys)@) == old(self).frame(delta_time as int, old(rigidbodys)@),
            (final(self).behavior(), final(rigidbodys)@) == frame_spec(
                old(self).behavior(),
                old(self).is_started(),
                delta_time as int,
                old(rigidbodys)@,
                old(self).body_handle() as int,
            ),
            final(self).wf(),
            final(self).running(),
            final(self).is_started() == (old(self).is_started() || old(self).has_component()),
            final(self).start_count() == old(self).start_count() + (if !old(self).is_started()
                && old(self).has_component() {
                1nat
            } else {
                0nat
            }),
            final(rigidbodys).len() == old(rigidbodys).len(),
            bodies_wf(final(rigidbodys)@),
            final(self).body_handle() == old(self).body_handle(),
            behave_spec(
                old(self).behavior(),
                old(self).is_started(),
                delta_time as int,
                old(rigidbodys)@,
                old(self).body_handle() as int,
            ).1.len() == old(rigidbodys).len(),
            final(rigidbodys)@[old(self).body_handle() as int] == behave_spec(
                old(self).behavior(),
                old(self).is_started(),
                delta_time as int,
                old(rigidbodys)@,
                old(self).body_handle() as int,
            ).1[old(self).body_handle() as int].stepped(delta_time as int),
            final(self).cached_position() == final(rigidbodys)@[old(self).body_handle() as int].position,
            final(self).cached_rotation() == final(rigidbodys)@[old(self).body_handle() as int].rotation,
    {
        let handle = self.rigid_body;
        if let Some(component) = &mut self.component {
            if !self.started {
                component.start(rigidbodys, handle);
                self.starts = Ghost(self.starts@ + 1);
                self.started = true;
            }
            component.update(delta_time, rigidbodys, handle);
        }
        let ghost before = rigidbodys@;
        rigidbodys[handle].update(delta_time);
        proof {
            assert forall|i: int| 0 <= i < rigidbodys@.len() implies (#[trigger] rigidbodys@[i]).wf() by {
                assert(before[i].wf());
            }
            assert(rigidbodys@ == integrated(before, handle as int, delta_time as int));
        }
        self.position = rigidbodys[handle].position;
        self.rotation = rigidbodys[handle].rotation;
    }

    /// Offers `event` to the behaviour, if there is one; whether it claimed
    /// the event is not passed on.
    pub fn input(&mut self, event: &InputEvent)
        ensures
            *final(self) == old(self).after_input(*event),
            final(self).behavior() == input_behavior(old(self).behavior(), *event),
            final(self).body_handle() == old(self).body_handle(),
            final(self).is_started() == old(self).is_started(),
            final(self).start_count() == old(self).start_count(),
            final(self).cached_position() == old(self).cached_position(),
            final(self).cached_rotation() == old(self).cached_rotation(),
    {
        if let Some(component) = &mut self.component {
            component.input(event);
        }
    }
}

/// The instance and the store after frames of the lengths in `dts`, in order.
pub open spec fn run_frames<C: Component>(
    instance: Instance<C>,
    dts: Seq<i64>,
    bodies: Seq<RigidBody>,
) -> (Instance<C>, Seq<RigidBody>)
    decreases dts.len(),
{
    if dts.len() == 0 {
        (instance, bodies)
    } else {
        let next = instance.frame(dts[0] as int, bodies);
        run_frames(next.0, dts.drop_first(), next.1)
    }
}

/// Frames are deterministic: equal instances over equal stores, given equal
/// sequences of frame lengths, reach equal instances and stores after every
/// prefix of the sequence.
pub proof fn lemma_frames_deterministic<C: Component>(
    a: Instance<C>,
    b: Instance<C>,
    store_a: Seq<RigidBody>,
    store_b: Seq<RigidBody>,
    dts: Seq<i64>,
    k: int,
)
    requires
        a == b,
        store_a == store_b,
        0 <= k <= dts.len(),
    ensures
        run_frames(a, dts.take(k), store_a) == run_frames(b, dts.take(k), store_b),
{
}

/// The members and the store after one frame of each member of `members`, in
/// order, each seeing the store as the previous ones left it.
pub open spec fn group_frame<C: Component>(
    members: Seq<Instance<C>>,
    dt: int,
    bodies: Seq<RigidBody>,
) -> (Seq<Instance<C>>, Seq<RigidBody>)
    decreases members.len(),
{
    if members.len() == 0 {
        (members, bodies)
    } else {
        let prev = group_frame(members.drop_last(), dt, bodies);
        let last = members.last().frame(dt, prev.1);
        (prev.0.push(last.0), last.1)
    }
}

/// The instances that share one model.
pub struct ModelInstances<C> {
    instances: Vec<Instance<C>>,
}

impl<C: Component> ModelInstances<C> {
    pub closed spec fn members(self) -> Seq<Instance<C>> {
        self.instances@
    }

    /// Every member is well formed and bound to a body of a store of `n` bodies.
    pub open spec fn bound_in(self, n: nat) -> bool {
        forall|j: int|
            0 <= j < self.members().len() ==> (#[trigger] self.members()[j]).wf()
                && self.members()[j].body_handle() < n
    }

    pub fn new(instances: Vec<Instance<C>>) -> (r: Self)
        ensures
            r.members() == instances@,
    {
        ModelInstances { instances }
    }

    /// The member instances.
    pub fn instances(&self) -> (r: &Vec<Instance<C>>)
        ensures
            r@ == self.members(),
    {
        &self.instances
    }

    /// Spawns an entity: appends its body, at rest with a unit box shape and
    /// mass one, to the store, and a new instance bound to it to this group.
    pub fn add_instance(
        &mut self,
        rigidbodys: &mut Vec<RigidBody>,
        position: Vec3,
        rotation: Quat,
        component: Option<C>,
    )
        requires
            rotation.is_unit(),
        ensures
            final(rigidbodys)@ == old(rigidbodys)@.push(spawned_body(position, rotation)),
            final(self).members().len() == old(self).members().len() + 1,
            forall|j: int|
                0 <= j < old(self).members().len() ==> final(self).members()[j] == #[trigger] old(
                    self,
                ).members()[j],
            final(self).members().last().wf(),
            final(self).members().last().body_handle() == old(rigidbodys).len(),
            final(self).members().last().cached_position() == position,
            final(self).members().last().cached_rotation() == rotation,
            final(self).members().last().behavior() == component,
            !final(self).members().last().is_started(),
    {
        rigidbodys.push(
            RigidBody {
                position,
                rotation,
                velocity: Vec3::zero(),
                acceleration: Vec3::zero(),
                angular_velocity: Vec3::zero(),
                mass: ONE,
                shape: Shape::Box(Vec3::new(ONE, ONE, ONE)),
            },
        );
        let handle = rigidbodys.len() - 1;
        self.instances.push(Instance::new(position, rotation, handle, component));
    }

    /// One frame of length `dt` for every member, in order.
    pub fn update(&mut self, dt: i64, rigidbodys: &mut Vec<RigidBody>)
        requires
            old(self).bound_in(old(rigidbodys).len() as nat),
            bodies_wf(old(rigidbodys)@),
        ensures
            (final(self).members(), final(rigidbodys)@) == group_frame(
                old(self).members(),
                dt as int,
                old(rigidbodys)@,
            ),
            final(self).bound_in(final(rigidbodys).len() as nat),
            final(rigidbodys).len() == old(rigidbodys).len(),
            bodies_wf(final(rigidbodys)@),
    {
        let n = self.instances.len();
        let ghost start = self.members();
        let ghost bodies0 = rigidbodys@;
        let mut j: usize = 0;
        while j < n
            invariant
                self.bound_in(rigidbodys.len() as nat),
                bodies_wf(rigidbodys@),
                rigidbodys.len() == bodies0.len(),
                n == self.members().len(),
                n == start.len(),
                j <= n,
                (self.members().take(j as int), rigidbodys@) == group_frame(
                    start.take(j as int),
                    dt as int,
                    bodies0,
                ),
                forall|i: int| j <= i < n ==> #[trigger] self.members()[i] == start[i],
            decreases n - j,
        {
            let ghost before = self.members();
            let ghost store = rigidbodys@;
            assert(before[j as int].wf());
            self.instances[j].update(dt, rigidbodys);
            proof {
                assert forall|i: int| 0 <= i < self.members().len() implies (
                #[trigger] self.members()[i]).wf() && self.members()[i].body_handle()
                    < rigidbodys.len() by {
                    if i != j {
                        assert(self.members()[i] == before[i]);
                    }
                }
                assert forall|i: int| j + 1 <= i < n implies #[trigger] self.members()[i]
                    == start[i] by {
                    assert(self.members()[i] == before[i]);
                }
                assert(start.take(j + 1).drop_last() =~= start.take(j as int));
                assert(start.take(j + 1).last() == before[j as int]);
                assert(self.members().take(j + 1) =~= before.take(j as int).push(
                    self.members()[j as int],
                ));
            }
            j += 1;
        }
        proof {
            assert(self.members().take(n as int) =~= self.members());
            assert(start.take(n as int) =~= start);
        }
    }

    /// Offers `event` to every member, whatever earlier members answered.
    pub fn input(&mut self, event: &InputEvent)
        ensures
            final(self).members() == old(self).members().map_values(
                |m: Instance<C>| m.after_input(*event),
            ),
    {
        let n = self.instances.len();
        let mut j: usize = 0;
        while j < n
            invariant
                n == self.members().len(),
                n == old(self).members().len(),
                j <= n,
                forall|i: int|
                    0 <= i < j ==> #[trigger] self.members()[i] == old(self).members()[i].after_input(
                        *event,
                    ),
                forall|i: int| j <= i < n ==> #[trigger] self.members()[i] == old(self).members()[i],
            decreases n - j,
        {
            let ghost before = self.members();
            self.instances[j].input(event);
            proof {
                assert forall|i: int| 0 <= i < j + 1 implies #[trigger] self.members()[i] == old(
                    self,
                ).members()[i].after_input(*event) by {
                    if i != j {
                        assert(self.members()[i] == before[i]);
                    }
                }
                assert forall|i: int| j + 1 <= i < n implies #[trigger] self.members()[i] == old(
                    self,
                ).members()[i] by {
                    assert(self.members()[i] == before[i]);
                }
            }
            j += 1;
        }
        proof {
            assert(self.members() =~= old(self).members().map_values(
                |m: Instance<C>| m.after_input(*event),
            ));
        }
    }
}

/// The behaviours that an entity can be spawned with.
pub enum Behavior {
    Paddle(Paddle),
    Ball(Ball),
}

impl Component for Behavior {
    open spec fn start_spec(self, bodies: Seq<RigidBody>, i: int) -> (Behavior, Seq<RigidBody>) {
        match self {
            Behavior::Paddle(p) => {
                let r = p.start_spec(bodies, i);
                (Behavior::Paddle(r.0), r.1)
            },
            Behavior::Ball(b) => {
                let r = b.start_spec(bodies, i);
                (Behavior::Ball(r.0), r.1)
            },
        }
    }

    open spec fn update_spec(self, dt: int, bodies: Seq<RigidBody>, i: int) -> (Behavior, Seq<
        RigidBody,
    >) {
        match self {
            Behavior::Paddle(p) => {
                let r = p.update_spec(dt, bodies, i);
                (Behavior::Paddle(r.0), r.1)
            },
            Behavior::Ball(b) => {
                let r = b.update_spec(dt, bodies, i);
                (Behavior::Ball(r.0), r.1)
            },
        }
    }

    open spec fn input_spec(self, event: InputEvent) -> (Behavior, bool) {
        match self {
            Behavior::Paddle(p) => {
                let r = p.input_spec(event);
                (Behavior::Paddle(r.0), r.1)
            },
            Behavior::Ball(b) => {
                let r = b.input_spec(event);
                (Behavior::Ball(r.0), r.1)
            },
        }
    }

    fn start(&mut self, rigidbodys: &mut Vec<RigidBody>, body_index: usize) {
        match self {
            Behavior::Paddle(p) => p.start(rigidbodys, body_index),
            Behavior::Ball(b) => b.start(rigidbodys, body_index),
        }
    }

    fn update(&mut self, dt: i64, rigidbodys: &mut Vec<RigidBody>, body_index: usize) {
        match self {
            Behavior::Paddle(p) => p.update(dt, rigidbodys, body_index),
            Behavior::Ball(b) => b.update(dt, rigidbodys, body_index),
        }
    }

    fn input(&mut self, event: &InputEvent) -> (r: bool) {
        match self {
            Behavior::Paddle(p) => p.input(event),
            Behavior::Ball(b) => b.input(event),
        }
    }
}

/// The behaviour chosen for the next spawned entity.
#[derive(Clone, Copy, Debug, PartialEq, Eq, Structural)]
pub enum ComponentSelection {
    NoBehavior,
    Paddle,
    Ball,
}

/// The behaviour for `selection`; a paddle gets the bindings `input_keys`
/// (forward, backward, left, right) with no key held.
pub fn select_component(selection: ComponentSelection, input_keys: Vec<KeyCode>) -> (r: Option<
    Behavior,
>)
    requires
        input_keys@.len() == 4,
    ensures
        selection == ComponentSelection::NoBehavior <==> r is None,
        selection == ComponentSelection::Ball <==> r matches Some(Behavior::Ball(_)),
        selection == ComponentSelection::Paddle <==> r matches Some(Behavior::Paddle(_)),
        r matches Some(Behavior::Paddle(p)) ==> p.keys() == input_keys@ && !p.forward_pressed()
            && !p.backward_pressed() && !p.left_pressed() && !p.right_pressed(),
{
    match selection {
        ComponentSelection::NoBehavior => None,
        ComponentSelection::Paddle => Some(Behavior::Paddle(Paddle::new(input_keys))),
        ComponentSelection::Ball => Some(Behavior::Ball(Ball::new())),
    }
}

} // verus!
