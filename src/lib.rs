//! Vehicle physics core for a top-down 2D driving sandbox: a small rigid-body
//! integrator and a multi-wheel car model with tire forces, steering slew,
//! drive and brake.
//!
//! Every quantity is a fixed-point number: the integer `q * SCALE` in the
//! range of `i32` (a resolution of 0.0001). Intermediate products are formed
//! exactly in `i128`, quotients round toward zero, and results are clamped
//! into the `i32` range. One tick runs, in order: `car::apply_wheel_forces`,
//! `car::update_wheels`, `rigidbody::apply_forces` and
//! `rigidbody::update_transform` (see `world::World::tick`).
pub mod car;
pub mod fixed;
pub mod rigidbody;
pub mod vector;
pub mod world;
