//! The simulated scene: the store of rigid bodies and the model groups whose
//! instances are bound to them.
use vstd::prelude::*;

use crate::component::{bodies_wf, Component, InputEvent};
use crate::instance::{group_frame, spawned_body, Instance, ModelInstances};
use crate::physics::RigidBody;
use crate::quat::Quat;
use crate::vector::Vec3;

verus! {

/// The members of each group.
pub open spec fn members_of<C: Component>(groups: Seq<ModelInstances<C>>) -> Seq<Seq<Instance<C>>> {
    groups.map_values(|m: ModelInstances<C>| m.members())
}

/// The groups' members and the store after one frame of every group, in
/// order, each seeing the store as the previous ones left it.
pub open spec fn scene_frame<C: Component>(
    groups: Seq<Seq<Instance<C>>>,
    dt: int,
    bodies: Seq<RigidBody>,
) -> (Seq<Seq<Instance<C>>>, Seq<RigidBody>)
    decreases groups.len(),
{
    if groups.len() == 0 {
        (groups, bodies)
    } else {
        let prev = scene_frame(groups.drop_last(), dt, bodies);
        let last = group_frame(groups.last(), dt, prev.1);
        (prev.0.push(last.0), last.1)
    }
}

/// Bodies are appended and never removed, so handles stay valid.
pub struct Scene<C> {
    rigidbodys: Vec<RigidBody>,
    model_instances: Vec<ModelInstances<C>>,
}

impl<C: Component> Scene<C> {
    pub closed spec fn bodies(self) -> Seq<RigidBody> {
        self.rigidbodys@
    }

    pub closed spec fn groups(self) -> Seq<ModelInstances<C>> {
        self.model_instances@
    }

    /// Every orientation is a unit quaternion, and every instance is well
    /// formed and bound to a body of the store.
    pub open spec fn wf(self) -> bool {
        &&& bodies_wf(self.bodies())
        &&& forall|g: int|
            0 <= g < self.groups().len() ==> (#[trigger] self.groups()[g]).bound_in(
                self.bodies().len(),
            )
    }

    /// An empty scene.
    pub fn new() -> (r: Self)
        ensures
            r.wf(),
            r.bodies().len() == 0,
            r.groups().len() == 0,
    {
        Scene { rigidbodys: Vec::new(), model_instances: Vec::new() }
    }

    /// The store of bodies.
    pub fn rigidbodys(&self) -> (r: &Vec<RigidBody>)
        ensures
            r@ == self.bodies(),
    {
        &self.rigidbodys
    }

    /// The model groups.
    pub fn model_instances(&self) -> (r: &Vec<ModelInstances<C>>)
        ensures
            r@ == self.groups(),
    {
        &self.model_instances
    }

    /// Adds an empty model group and returns its index.
    pub fn add_model(&mut self) -> (r: usize)
        requires
            old(self).wf(),
        ensures
            final(self).wf(),
            r == old(self).groups().len(),
            final(self).bodies() == old(self).bodies(),
            final(self).groups().len() == old(self).groups().len() + 1,
            final(self).groups().last().members().len() == 0,
            forall|g: int|
                0 <= g < old(self).groups().len() ==> #[trigger] final(self).groups()[g] == old(
                    self,
                ).groups()[g],
    {
        self.model_instances.push(ModelInstances::new(Vec::new()));
        proof {
            let n = self.bodies().len();
            assert forall|g: int| 0 <= g < self.groups().len() implies (
            #[trigger] self.groups()[g]).bound_in(n) by {
                if g < old(self).groups().len() {
                    assert(self.groups()[g] == old(self).groups()[g]);
                }
            }
        }
        self.model_instances.len() - 1
    }

    /// Spawns an entity in group `group`: a body at rest at `position` with
    /// orientation `rotation`, and a new instance bound to it.
    pub fn add_instance(
        &mut self,
        group: usize,
        position: Vec3,
        rotation: Quat,
        component: Option<C>,
    )
        requires
            old(self).wf(),
            group < old(self).groups().len(),
            rotation.is_unit(),
        ensures
            final(self).wf(),
            final(self).bodies() == old(self).bodies().push(spawned_body(position, rotation)),
            final(self).groups().len() == old(self).groups().len(),
            forall|g: int|
                0 <= g < old(self).groups().len() && g != group ==> #[trigger] final(self).groups()[g]
                    == old(self).groups()[g],
            final(self).groups()[group as int].members().len() == old(self).groups()[
                group as int].members().len() + 1,
            final(self).groups()[group as int].members().last().body_handle() == old(
                self,
            ).bodies().len(),
            final(self).groups()[group as int].members().last().behavior() == component,
            final(self).groups()[group as int].members().last().cached_position() == position,
            final(self).groups()[group as int].members().last().cached_rotation() == rotation,
            forall|j: int|
                0 <= j < old(self).groups()[group as int].members().len()
                    ==> (#[trigger] final(self).groups()[group as int].members()[j]) == old(
                    self,
                ).groups()[group as int].members()[j],
            !final(self).groups()[group as int].members().last().is_started(),
    {
        let ghost old_groups = self.groups();
        let ghost n = self.bodies().len();
        self.model_instances[group].add_instance(&mut self.rigidbodys, position, rotation, component);
        proof {
            let m = self.bodies().len();
            assert forall|i: int| 0 <= i < m implies (#[trigger] self.bodies()[i]).wf() by {
                if i < n {
                    assert(old(self).bodies()[i].wf());
                }
            }
            assert forall|g: int| 0 <= g < self.groups().len() implies (
            #[trigger] self.groups()[g]).bound_in(m) by {
                if g != group {
                    assert(self.groups()[g] == old_groups[g]);
                    assert(old_groups[g].bound_in(n));
                } else {
                    let gr = self.groups()[g];
                    assert(old_groups[g].bound_in(n));
                    assert forall|j: int| 0 <= j < gr.members().len() implies (
                    #[trigger] gr.members()[j]).wf() && gr.members()[j].body_handle() < m by {
                        if j < old_groups[g].members().len() {
                            assert(gr.members()[j] == old_groups[g].members()[j]);
                        }
                    }
                }
            }
        }
    }

    /// One frame of length `dt`: every instance of every group, in order,
    /// starts its behaviour if it has not yet, updates it, and integrates its
    /// body.
    pub fn update(&mut self, dt: i64)
        requires
            old(self).wf(),
        ensures
            (members_of(final(self).groups()), final(self).bodies()) == scene_frame(
                members_of(old(self).groups()),
                dt as int,
                old(self).bodies(),
            ),
            final(self).wf(),
            final(self).groups().len() == old(self).groups().len(),
            final(self).bodies().len() == old(self).bodies().len(),
    {
        let n_groups = self.model_instances.len();
        let ghost start = self.groups();
        let ghost bodies0 = self.bodies();
        let mut g: usize = 0;
        while g < n_groups
            invariant
                self.wf(),
                n_groups == self.groups().len(),
                n_groups == start.len(),
                self.bodies().len() == bodies0.len(),
                g <= n_groups,
                (members_of(self.groups()).take(g as int), self.bodies()) == scene_frame(
                    members_of(start).take(g as int),
                    dt as int,
                    bodies0,
                ),
                forall|k: int| g <= k < n_groups ==> #[trigger] self.groups()[k] == start[k],
            decreases n_groups - g,
        {
            let ghost before = self.groups();
            let ghost len = self.bodies().len();
            assert(before[g as int].bound_in(len));
            self.model_instances[g].update(dt, &mut self.rigidbodys);
            proof {
                assert forall|k: int| 0 <= k < self.groups().len() implies (
                #[trigger] self.groups()[k]).bound_in(len) by {
                    if k != g {
                        assert(self.groups()[k] == before[k]);
                        assert(before[k].bound_in(len));
                    }
                }
                assert forall|k: int| g + 1 <= k < n_groups implies #[trigger] self.groups()[k]
                    == start[k] by {
                    assert(self.groups()[k] == before[k]);
                }
                let ms = members_of(start);
                assert(ms.take(g + 1).drop_last() =~= ms.take(g as int));
                assert(ms.take(g + 1).last() == before[g as int].members());
                assert(members_of(self.groups()).take(g + 1) =~= members_of(before).take(
                    g as int,
                ).push(self.groups()[g as int].members()));
            }
            g += 1;
        }
        proof {
            assert(members_of(self.groups()).take(n_groups as int) =~= members_of(self.groups()));
            assert(members_of(start).take(n_groups as int) =~= members_of(start));
        }
    }

    /// Offers `event` to the behaviour of every instance, whatever earlier
    /// behaviours answered.
    pub fn input(&mut self, event: &InputEvent)
        requires
            old(self).wf(),
        ensures
            members_of(final(self).groups()) == members_of(old(self).groups()).map_values(
                |ms: Seq<Instance<C>>| ms.map_values(|m: Instance<C>| m.after_input(*event)),
            ),
            final(self).wf(),
            final(self).bodies() == old(self).bodies(),
            final(self).groups().len() == old(self).groups().len(),
    {
        let n_groups = self.model_instances.len();
        let ghost len = self.bodies().len();
        let mut g: usize = 0;
        while g < n_groups
            invariant
                self.wf(),
                n_groups == self.groups().len(),
                n_groups == old(self).groups().len(),
                self.bodies() == old(self).bodies(),
                len == self.bodies().len(),
                g <= n_groups,
                forall|k: int|
                    0 <= k < g ==> #[trigger] self.groups()[k].members() == old(
                        self,
                    ).groups()[k].members().map_values(|m: Instance<C>| m.after_input(*event)),
                forall|k: int| g <= k < n_groups ==> #[trigger] self.groups()[k] == old(self).groups()[k],
            decreases n_groups - g,
        {
            let ghost before = self.groups();
            assert(before[g as int].bound_in(len));
            self.model_instances[g].input(event);
            proof {
                assert forall|k: int| 0 <= k < self.groups().len() implies (
                #[trigger] self.groups()[k]).bound_in(len) by {
                    if k != g {
                        assert(self.groups()[k] == before[k]);
                        assert(before[k].bound_in(len));
                    } else {
                        let gr = self.groups()[k];
                        assert forall|j: int| 0 <= j < gr.members().len() implies (
                        #[trigger] gr.members()[j]).wf() && gr.members()[j].body_handle() < len by {
                            assert(gr.members()[j] == before[k].members()[j].after_input(*event));
                            assert(before[k].members()[j].wf());
                            before[k].members()[j].lemma_after_input(*event);
                        }
                    }
                }
                assert forall|k: int| 0 <= k < g + 1 implies #[trigger] self.groups()[k].members()
                    == old(self).groups()[k].members().map_values(
                    |m: Instance<C>| m.after_input(*event),
                ) by {
                    if k != g {
                        assert(self.groups()[k] == before[k]);
                    }
                }
                assert forall|k: int| g + 1 <= k < n_groups implies #[trigger] self.groups()[k]
                    == old(self).groups()[k] by {
                    assert(self.groups()[k] == before[k]);
                }
            }
            g += 1;
        }
        proof {
            assert(members_of(self.groups()) =~= members_of(old(self).groups()).map_values(
                |ms: Seq<Instance<C>>| ms.map_values(|m: Instance<C>| m.after_input(*event)),
            ));
        }
    }
}

} // verus!
