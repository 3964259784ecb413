//! A keyboard-driven controller that slides its body along the x axis.
use vstd::prelude::*;

use crate::component::{lemma_one_body_changed, Component, InputEvent, KeyCode};
use crate::physics::RigidBody;
use crate::vector::Vec3;

verus! {

/// Horizontal speed of a paddle while "left" or "right" is held: ten units a second.
pub const PADDLE_SPEED: i64 = 655360;

/// Which of the four bindings `event` presses or releases, if it is a key
/// event for one of them; the first binding that matches wins.
pub open spec fn binding_of(keys: Seq<KeyCode>, event: InputEvent) -> Option<int> {
    match event {
        InputEvent::KeyboardInput { key: Some(k), pressed: _ } => {
            if keys[0] == k {
                Some(0)
            } else if keys[1] == k {
                Some(1)
            } else if keys[2] == k {
                Some(2)
            } else if keys[3] == k {
                Some(3)
            } else {
                None
            }
        },
        _ => None,
    }
}

/// The new state of the pressed flag of `binding` after `event`.
pub open spec fn flag_after(event: InputEvent, binding: int, flag: bool, keys: Seq<KeyCode>) -> bool {
    if binding_of(keys, event) == Some(binding) {
        event->KeyboardInput_pressed
    } else {
        flag
    }
}

/// The horizontal velocity that a paddle sets: "left" wins over "right".
pub open spec fn paddle_velocity_x(left: bool, right: bool) -> i64 {
    if left {
        (-PADDLE_SPEED) as i64
    } else if right {
        PADDLE_SPEED
    } else {
        0
    }
}

/// Keyboard controller. Its four bindings are, in order, forward, backward,
/// left and right; only left and right move the body.
pub struct Paddle {
    input_keys: Vec<KeyCode>,
    is_forward_pressed: bool,
    is_backward_pressed: bool,
    is_left_pressed: bool,
    is_right_pressed: bool,
}

impl Paddle {
    #[verifier::type_invariant]
    spec fn has_four_bindings(self) -> bool {
        self.input_keys@.len() == 4
    }

    pub closed spec fn keys(self) -> Seq<KeyCode> {
        self.input_keys@
    }

    pub closed spec fn forward_pressed(self) -> bool {
        self.is_forward_pressed
    }

    pub closed spec fn backward_pressed(self) -> bool {
        self.is_backward_pressed
    }

    pub closed spec fn left_pressed(self) -> bool {
        self.is_left_pressed
    }

    pub closed spec fn right_pressed(self) -> bool {
        self.is_right_pressed
    }

    /// What `input_spec` does to the bindings and the pressed flags, and when
    /// it claims the event.
    pub proof fn lemma_input_spec(self, event: InputEvent)
        ensures
            self.input_spec(event).1 == (binding_of(self.keys(), event) is Some),
            self.input_spec(event).0.keys() == self.keys(),
            self.input_spec(event).0.forward_pressed() == flag_after(
                event,
                0,
                self.forward_pressed(),
                self.keys(),
            ),
            self.input_spec(event).0.backward_pressed() == flag_after(
                event,
                1,
                self.backward_pressed(),
                self.keys(),
            ),
            self.input_spec(event).0.left_pressed() == flag_after(
                event,
                2,
                self.left_pressed(),
                self.keys(),
            ),
            self.input_spec(event).0.right_pressed() == flag_after(
                event,
                3,
                self.right_pressed(),
                self.keys(),
            ),
    {
    }

    /// A paddle with the given bindings (forward, backward, left, right) and
    /// no key held.
    pub fn new(input_keys: Vec<KeyCode>) -> (r: Paddle)
        requires
            input_keys@.len() == 4,
        ensures
            r.keys() == input_keys@,
            !r.forward_pressed(),
            !r.backward_pressed(),
            !r.left_pressed(),
            !r.right_pressed(),
    {
        Paddle {
            is_forward_pressed: false,
            is_backward_pressed: false,
            is_left_pressed: false,
            is_right_pressed: false,
            input_keys,
        }
    }
}

impl Component for Paddle {
    open spec fn start_spec(self, bodies: Seq<RigidBody>, i: int) -> (Paddle, Seq<RigidBody>) {
        (self, bodies)
    }

    open spec fn update_spec(self, dt: int, bodies: Seq<RigidBody>, i: int) -> (Paddle, Seq<
        RigidBody,
    >) {
        (
            self,
            bodies.update(
                i,
                RigidBody {
                    velocity: Vec3 {
                        x: paddle_velocity_x(self.left_pressed(), self.right_pressed()),
                        ..bodies[i].velocity
                    },
                    ..bodies[i]
                },
            ),
        )
    }

    closed spec fn input_spec(self, event: InputEvent) -> (Paddle, bool) {
        let keys = self.input_keys@;
        (
            Paddle {
                input_keys: self.input_keys,
                is_forward_pressed: flag_after(event, 0, self.is_forward_pressed, keys),
                is_backward_pressed: flag_after(event, 1, self.is_backward_pressed, keys),
                is_left_pressed: flag_after(event, 2, self.is_left_pressed, keys),
                is_right_pressed: flag_after(event, 3, self.is_right_pressed, keys),
            },
            binding_of(keys, event) is Some,
        )
    }

    /// A paddle needs no set-up.
    fn start(&mut self, rigidbodys: &mut Vec<RigidBody>, body_index: usize)
        ensures
            final(rigidbodys)@ == old(rigidbodys)@,
            *final(self) == *old(self),
    {
    }

    /// Sets the body's horizontal velocity from the held keys.
    fn update(&mut self, dt: i64, rigidbodys: &mut Vec<RigidBody>, body_index: usize)
        ensures
            final(rigidbodys)@ == old(rigidbodys)@.update(
                body_index as int,
                RigidBody {
                    velocity: Vec3 {
                        x: paddle_velocity_x(old(self).left_pressed(), old(self).right_pressed()),
                        ..old(rigidbodys)@[body_index as int].velocity
                    },
                    ..old(rigidbodys)@[body_index as int]
                },
            ),
            *final(self) == *old(self),
    {
        let x = if self.is_left_pressed {
            -PADDLE_SPEED
        } else if self.is_right_pressed {
            PADDLE_SPEED
        } else {
            0
        };
        let rigidbody = &mut rigidbodys[body_index];
        rigidbody.velocity.x = x;
        proof {
            lemma_one_body_changed(old(rigidbodys)@, rigidbodys@, body_index as int);
        }
    }

    /// Records a press or release of one of the four bindings; claims the
    /// event exactly when it is one.
    fn input(&mut self, event: &InputEvent) -> (r: bool)
        ensures
            r == (binding_of(old(self).keys(), *event) is Some),
            final(self).keys() == old(self).keys(),
            final(self).forward_pressed() == flag_after(
                *event,
                0,
                old(self).forward_pressed(),
                old(self).keys(),
            ),
            final(self).backward_pressed() == flag_after(
                *event,
                1,
                old(self).backward_pressed(),
                old(self).keys(),
            ),
            final(self).left_pressed() == flag_after(
                *event,
                2,
                old(self).left_pressed(),
                old(self).keys(),
            ),
            final(self).right_pressed() == flag_after(
                *event,
                3,
                old(self).right_pressed(),
                old(self).keys(),
            ),
    {
        proof {
            use_type_invariant(&*self);
        }
        match event {
            InputEvent::KeyboardInput { key: Some(keycode), pressed } => {
                let is_pressed = *pressed;
                if *keycode == self.input_keys[0] {
                    self.is_forward_pressed = is_pressed;
                    true
                } else if *keycode == self.input_keys[1] {
                    self.is_backward_pressed = is_pressed;
                    true
                } else if *keycode == self.input_keys[2] {
                    self.is_left_pressed = is_pressed;
                    true
                } else if *keycode == self.input_keys[3] {
                    self.is_right_pressed = is_pressed;
                    true
                } else {
                    false
                }
            },
            _ => false,
        }
    }
}

} // verus!
