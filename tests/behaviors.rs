use scene_core::ball::{touches_any, Ball};
use scene_core::component::{Component, InputEvent, KeyCode};
use scene_core::fixed::ONE;
use scene_core::instance::{select_component, Behavior, ComponentSelection, Instance};
use scene_core::paddle::{Paddle, PADDLE_SPEED};
use scene_core::physics::{RigidBody, Shape};
use scene_core::quat::Quat;
use scene_core::vector::Vec3;

const FORWARD: KeyCode = KeyCode(10);
const BACKWARD: KeyCode = KeyCode(11);
const LEFT: KeyCode = KeyCode(12);
const RIGHT: KeyCode = KeyCode(13);

fn keys() -> Vec<KeyCode> {
    vec![FORWARD, BACKWARD, LEFT, RIGHT]
}

fn key(k: KeyCode, pressed: bool) -> InputEvent {
    InputEvent::KeyboardInput { key: Some(k), pressed }
}

fn body_at(x: i64, y: i64, z: i64) -> RigidBody {
    RigidBody::new(Vec3::new(x, y, z), Quat::identity(), Vec3::zero(), Vec3::zero(), ONE)
}

#[test]
fn paddle_moves_left_while_left_is_held() {
    let mut paddle = Paddle::new(keys());
    let mut bodies = vec![body_at(0, 0, 0), body_at(5 * ONE, 0, 0)];
    bodies[0].velocity = Vec3::new(3, 4, 5);
    assert!(paddle.input(&key(LEFT, true)));
    paddle.update(1092, &mut bodies, 0);
    assert_eq!(bodies[0].velocity, Vec3::new(-PADDLE_SPEED, 4, 5));
    assert_eq!(bodies[0].velocity.x, -10 * ONE);
    assert!(paddle.input(&key(LEFT, false)));
    paddle.update(1092, &mut bodies, 0);
    assert_eq!(bodies[0].velocity, Vec3::new(0, 4, 5));
    assert_eq!(bodies[1].velocity, Vec3::zero());
}

#[test]
fn paddle_moves_right_and_left_wins() {
    let mut paddle = Paddle::new(keys());
    let mut bodies = vec![body_at(0, 0, 0)];
    assert!(paddle.input(&key(RIGHT, true)));
    paddle.update(1092, &mut bodies, 0);
    assert_eq!(bodies[0].velocity.x, PADDLE_SPEED);
    assert!(paddle.input(&key(LEFT, true)));
    paddle.update(1092, &mut bodies, 0);
    assert_eq!(bodies[0].velocity.x, -PADDLE_SPEED);
    assert!(paddle.input(&key(LEFT, false)));
    paddle.update(1092, &mut bodies, 0);
    assert_eq!(bodies[0].velocity.x, PADDLE_SPEED);
}

#[test]
fn paddle_forward_and_backward_do_not_move() {
    let mut paddle = Paddle::new(keys());
    let mut bodies = vec![body_at(0, 0, 0)];
    assert!(paddle.input(&key(FORWARD, true)));
    assert!(paddle.input(&key(BACKWARD, true)));
    paddle.update(1092, &mut bodies, 0);
    assert_eq!(bodies[0].velocity, Vec3::zero());
}

#[test]
fn paddle_claims_only_its_bindings() {
    let mut paddle = Paddle::new(keys());
    assert!(!paddle.input(&key(KeyCode(99), true)));
    assert!(!paddle.input(&InputEvent::KeyboardInput { key: None, pressed: true }));
    assert!(!paddle.input(&InputEvent::CursorMoved { x: 3, y: 4 }));
    assert!(!paddle.input(&InputEvent::Resized { width: 800, height: 600 }));
    assert!(!paddle.input(&InputEvent::CloseRequested));
    let mut bodies = vec![body_at(0, 0, 0)];
    paddle.update(1092, &mut bodies, 0);
    assert_eq!(bodies[0].velocity.x, 0);
}

#[test]
fn paddle_first_matching_binding_wins() {
    let mut paddle = Paddle::new(vec![LEFT, BACKWARD, LEFT, RIGHT]);
    assert!(paddle.input(&key(LEFT, true)));
    let mut bodies = vec![body_at(0, 0, 0)];
    paddle.update(1092, &mut bodies, 0);
    assert_eq!(bodies[0].velocity.x, 0);
}

#[test]
fn ball_start_sets_downward_velocity() {
    let mut ball = Ball::new();
    let mut bodies = vec![body_at(0, 0, 0), body_at(0, 5 * ONE, 0)];
    ball.start(&mut bodies, 1);
    assert_eq!(bodies[1].velocity, Vec3::new(0, -2 * ONE, 0));
    assert_eq!(bodies[0].velocity, Vec3::zero());
    assert!(!ball.input(&key(LEFT, true)));
}

#[test]
fn ball_deflects_on_overlap_only() {
    let mut ball = Ball::new();
    let mut bodies = vec![body_at(0, 3 * ONE, 0), body_at(0, 0, 0)];
    bodies[0].velocity = Vec3::new(ONE, -2 * ONE, 3 * ONE);
    ball.update(1092, &mut bodies, 0);
    assert_eq!(bodies[0].velocity, Vec3::new(ONE, -2 * ONE, 3 * ONE));
    bodies[0].position.y = ONE / 2;
    assert!(touches_any(&bodies, 0));
    ball.update(1092, &mut bodies, 0);
    // v x (1, 0, 0) = (0, vz, -vy)
    assert_eq!(bodies[0].velocity, Vec3::new(0, 3 * ONE, 2 * ONE));
    assert_eq!(bodies[1].velocity, Vec3::zero());
}

#[test]
fn ball_deflects_once_per_update_with_several_overlaps() {
    let mut ball = Ball::new();
    let mut bodies = vec![body_at(0, 0, 0), body_at(ONE / 4, 0, 0), body_at(-ONE / 4, 0, 0)];
    bodies[0].velocity = Vec3::new(0, -2 * ONE, 0);
    ball.update(1092, &mut bodies, 0);
    assert_eq!(bodies[0].velocity, Vec3::new(0, 0, 2 * ONE));
}

#[test]
fn touches_any_ignores_itself() {
    let bodies = vec![body_at(0, 0, 0)];
    assert!(!touches_any(&bodies, 0));
    let mut far = vec![body_at(0, 0, 0), body_at(10 * ONE, 0, 0)];
    assert!(!touches_any(&far, 1));
    far[1].shape = Shape::Sphere(20 * ONE);
    assert!(touches_any(&far, 1));
    assert!(touches_any(&far, 0));
}

#[test]
fn behavior_starts_exactly_once_over_many_updates() {
    // Ball::start sets the velocity to (0, -2, 0); were it run again, the
    // velocity set below would be overwritten.
    let mut bodies = vec![body_at(0, 50 * ONE, 0)];
    let mut instance = Instance::new(Vec3::zero(), Quat::identity(), 0, Some(Behavior::Ball(Ball::new())));
    assert!(!instance.started());
    instance.update(1092, &mut bodies);
    assert!(instance.started());
    assert_eq!(bodies[0].velocity, Vec3::new(0, -2 * ONE, 0));
    bodies[0].velocity = Vec3::new(ONE, 0, 0);
    for _ in 0..25 {
        instance.update(1092, &mut bodies);
        assert_eq!(bodies[0].velocity, Vec3::new(ONE, 0, 0));
        assert!(instance.started());
    }
    instance.input(&InputEvent::CloseRequested);
    assert!(instance.started());
}

#[test]
fn behavior_updates_on_every_frame_before_integration() {
    // The paddle's update resets velocity.x on every frame, before the body
    // moves by it.
    let mut bodies = vec![body_at(0, 0, 0)];
    let mut instance = Instance::new(Vec3::zero(), Quat::identity(), 0, Some(Behavior::Paddle(Paddle::new(keys()))));
    instance.input(&key(RIGHT, true));
    for n in 1..=5i64 {
        bodies[0].velocity.x = 123 * ONE;
        instance.update(ONE / 4, &mut bodies);
        assert_eq!(bodies[0].velocity.x, PADDLE_SPEED);
        assert_eq!(bodies[0].position.x, n * PADDLE_SPEED / 4);
        assert_eq!(instance.position(), bodies[0].position);
    }
}

#[test]
fn instance_without_behavior_still_integrates() {
    let mut bodies = vec![body_at(0, 0, 0), body_at(ONE, 2 * ONE, 0)];
    bodies[1].velocity = Vec3::new(0, -ONE, 0);
    let mut instance: Instance<Behavior> = Instance::new(Vec3::zero(), Quat::identity(), 1, None);
    instance.update(ONE / 4, &mut bodies);
    assert!(!instance.started());
    assert_eq!(bodies[1].position, Vec3::new(ONE, 2 * ONE - ONE / 4, 0));
    assert_eq!(instance.position(), bodies[1].position);
    assert_eq!(instance.rotation(), bodies[1].rotation);
    assert_eq!(instance.rigid_body(), 1);
    assert_eq!(bodies[0].position, Vec3::zero());
}

#[test]
fn selection_builds_the_chosen_behavior() {
    assert!(select_component(ComponentSelection::NoBehavior, keys()).is_none());
    assert!(matches!(select_component(ComponentSelection::Ball, keys()), Some(Behavior::Ball(_))));
    let mut paddle = select_component(ComponentSelection::Paddle, keys()).unwrap();
    assert!(matches!(paddle, Behavior::Paddle(_)));
    assert!(paddle.input(&key(RIGHT, true)));
    let mut bodies = vec![body_at(0, 0, 0)];
    paddle.update(1092, &mut bodies, 0);
    assert_eq!(bodies[0].velocity.x, PADDLE_SPEED);
}

#[test]
fn ball_instance_is_deflected_on_the_first_frame_that_starts_overlapping() {
    let mut store = vec![body_at(0, (2.51f64 * ONE as f64).round() as i64, 0), body_at(0, 0, 0)];
    let mut ball = Instance::new(store[0].position, Quat::identity(), 0, Some(Behavior::Ball(Ball::new())));
    let mut wall: Instance<Behavior> = Instance::new(Vec3::zero(), Quat::identity(), 1, None);
    for frame in 1..=46 {
        ball.update(ONE / 60, &mut store);
        wall.update(ONE / 60, &mut store);
        assert_eq!(store[0].velocity, Vec3::new(0, -2 * ONE, 0), "frame {}", frame);
    }
    assert!(store[0].is_intersecting(&store[1]));
    ball.update(ONE / 60, &mut store);
    wall.update(ONE / 60, &mut store);
    assert_eq!(store[0].velocity, Vec3::new(0, 0, 2 * ONE));
    assert_eq!(store[1].position, Vec3::zero());
}
