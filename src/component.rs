//! The behaviour protocol: scripted per-entity logic with a one-time `start`,
//! a per-frame `update` and input delivery.
use vstd::prelude::*;

use crate::physics::RigidBody;

verus! {

/// A key of the host's keyboard, by its key code.
#[derive(Clone, Copy, Debug, PartialEq, Eq, Structural)]
pub struct KeyCode(pub u32);

/// A platform input event, as the host forwards it.
#[derive(Clone, Copy, Debug, PartialEq, Eq, Structural)]
pub enum InputEvent {
    /// A key went down (`pressed`) or up; `key` is `None` for a key that has
    /// no key code.
    KeyboardInput { key: Option<KeyCode>, pressed: bool },
    /// The pointer moved to the given window coordinates.
    CursorMoved { x: i64, y: i64 },
    /// The window now has the given size.
    Resized { width: u32, height: u32 },
    /// The window was asked to close.
    CloseRequested,
    /// Any other event.
    Other,
}

/// Every body of the store has a unit orientation.
pub open spec fn bodies_wf(bodies: Seq<RigidBody>) -> bool {
    forall|i: int| 0 <= i < bodies.len() ==> (#[trigger] bodies[i]).wf()
}

/// Changing one body, but not its orientation, keeps every orientation a unit
/// quaternion.
pub(crate) proof fn lemma_one_body_changed(before: Seq<RigidBody>, after: Seq<RigidBody>, i: int)
    requires
        bodies_wf(before),
        0 <= i < before.len(),
        after.len() == before.len(),
        after[i].rotation == before[i].rotation,
        forall|k: int| 0 <= k < before.len() && k != i ==> after[k] == before[k],
    ensures
        bodies_wf(after),
{
    assert forall|k: int| 0 <= k < after.len() implies (#[trigger] after[k]).wf() by {
        assert(before[k].wf());
    }
}

/// Scripted logic of one entity. It reaches its own body, and any other, only
/// through the store and its handle `body_index`. Each operation is described
/// by a spec function that gives the behaviour's new state and the new store
/// (or whether an event was claimed).
pub trait Component: Sized {
    /// The behaviour and the store after `start` on body `i` of `bodies`.
    spec fn start_spec(self, bodies: Seq<RigidBody>, i: int) -> (Self, Seq<RigidBody>);

    /// The behaviour and the store after `update` with elapsed time `dt`.
    spec fn update_spec(self, dt: int, bodies: Seq<RigidBody>, i: int) -> (Self, Seq<RigidBody>);

    /// The behaviour after `input` of `event`, and whether it claimed it.
    spec fn input_spec(self, event: InputEvent) -> (Self, bool);

    /// One-time set-up, before the first `update`.
    fn start(&mut self, rigidbodys: &mut Vec<RigidBody>, body_index: usize)
        requires
            body_index < old(rigidbodys).len(),
            bodies_wf(old(rigidbodys)@),
        ensures
            (*final(self), final(rigidbodys)@) == old(self).start_spec(
                old(rigidbodys)@,
                body_index as int,
            ),
            final(rigidbodys).len() == old(rigidbodys).len(),
            bodies_wf(final(rigidbodys)@),
    ;

    /// Per-frame logic; `dt` is the elapsed time.
    fn update(&mut self, dt: i64, rigidbodys: &mut Vec<RigidBody>, body_index: usize)
        requires
            body_index < old(rigidbodys).len(),
            bodies_wf(old(rigidbodys)@),
        ensures
            (*final(self), final(rigidbodys)@) == old(self).update_spec(
                dt as int,
                old(rigidbodys)@,
                body_index as int,
            ),
            final(rigidbodys).len() == old(rigidbodys).len(),
            bodies_wf(final(rigidbodys)@),
    ;

    /// Offers an input event; the result says whether the event was claimed.
    fn input(&mut self, event: &InputEvent) -> (r: bool)
        ensures
            (*final(self), r) == old(self).input_spec(*event),
    ;
}

} // verus!
