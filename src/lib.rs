//! Simulation core of a small 3D scene editor: rigid bodies, collision tests
//! and scripted per-entity behaviours, all over fixed-point scalars.
pub mod fixed;
pub mod vector;
pub mod quat;
pub mod physics;
pub mod collision;
pub mod component;
pub mod paddle;
pub mod ball;
pub mod instance;
pub mod scene;
