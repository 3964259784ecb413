use scene_core::ball::Ball;
use scene_core::component::{InputEvent, KeyCode};
use scene_core::fixed::ONE;
use scene_core::instance::{Behavior, ComponentSelection};
use scene_core::instance::select_component;
use scene_core::paddle::{Paddle, PADDLE_SPEED};
use scene_core::physics::Shape;
use scene_core::quat::Quat;
use scene_core::scene::Scene;
use scene_core::vector::Vec3;

const DT: i64 = ONE / 60;

#[test]
fn ball_is_deflected_on_the_frame_after_it_first_overlaps_the_box() {
    let mut scene: Scene<Behavior> = Scene::new();
    let group = scene.add_model();
    scene.add_instance(group, Vec3::new(0, 3 * ONE, 0), Quat::identity(), Some(Behavior::Ball(Ball::new())));
    scene.add_instance(group, Vec3::zero(), Quat::identity(), None);
    assert_eq!(scene.rigidbodys().len(), 2);

    let falling = Vec3::new(0, -2 * ONE, 0);
    let mut first_overlap = None;
    for frame in 1..=70 {
        let overlapping_before = {
            let bodies = scene.rigidbodys();
            bodies[0].is_intersecting(&bodies[1])
        };
        scene.update(DT);
        let v = scene.rigidbodys()[0].velocity;
        if overlapping_before {
            assert_eq!(v, Vec3::new(0, 0, 2 * ONE), "frame {}", frame);
            break;
        }
        assert_eq!(v, falling, "frame {}", frame);
        let bodies = scene.rigidbodys();
        if first_overlap.is_none() && bodies[0].is_intersecting(&bodies[1]) {
            first_overlap = Some(frame);
        }
    }
    assert_eq!(first_overlap, Some(61));
    let bodies = scene.rigidbodys();
    assert_eq!(bodies[0].position.y, 3 * ONE - 61 * 2184);
    assert_eq!(bodies[0].position.z, 2184);
    assert_eq!(bodies[1].position, Vec3::zero());
    let instances = scene.model_instances()[group].instances();
    assert_eq!(instances[0].position(), bodies[0].position);
    assert!(instances[0].started());
    assert!(!instances[1].started());
}

#[test]
fn input_reaches_every_behavior_in_every_group() {
    let keys = vec![KeyCode(1), KeyCode(2), KeyCode(3), KeyCode(4)];
    let mut scene: Scene<Behavior> = Scene::new();
    let a = scene.add_model();
    let b = scene.add_model();
    scene.add_instance(a, Vec3::zero(), Quat::identity(), Some(Behavior::Paddle(Paddle::new(keys.clone()))));
    scene.add_instance(b, Vec3::new(5 * ONE, 0, 0), Quat::identity(), select_component(ComponentSelection::Paddle, keys.clone()));
    scene.add_instance(b, Vec3::new(0, 9 * ONE, 0), Quat::identity(), select_component(ComponentSelection::NoBehavior, keys));
    scene.input(&InputEvent::KeyboardInput { key: Some(KeyCode(3)), pressed: true });
    scene.update(ONE / 2);
    let bodies = scene.rigidbodys();
    assert_eq!(bodies[0].velocity.x, -PADDLE_SPEED);
    assert_eq!(bodies[1].velocity.x, -PADDLE_SPEED);
    assert_eq!(bodies[0].position.x, -PADDLE_SPEED / 2);
    assert_eq!(bodies[1].position.x, 5 * ONE - PADDLE_SPEED / 2);
    assert_eq!(bodies[2].velocity, Vec3::zero());
}

#[test]
fn spawned_bodies_are_unit_boxes_at_rest() {
    let mut scene: Scene<Behavior> = Scene::new();
    let g = scene.add_model();
    let q = Quat::from_components(0, 0, 1, 1).unwrap();
    scene.add_instance(g, Vec3::new(ONE, 2 * ONE, 3 * ONE), q, None);
    let body = scene.rigidbodys()[0];
    assert_eq!(body.position, Vec3::new(ONE, 2 * ONE, 3 * ONE));
    assert_eq!(body.rotation, q);
    assert_eq!(body.velocity, Vec3::zero());
    assert_eq!(body.acceleration, Vec3::zero());
    assert_eq!(body.angular_velocity, Vec3::zero());
    assert_eq!(body.mass, ONE);
    assert_eq!(body.shape, Shape::Box(Vec3::new(ONE, ONE, ONE)));
    let inst = &scene.model_instances()[g].instances()[0];
    assert_eq!(inst.rigid_body(), 0);
    assert_eq!(inst.rotation(), q);
}
