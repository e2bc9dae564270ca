//! Simulation core of a first-person character controller.
//!
//! All quantities are fixed-point integers carrying six decimal places
//! (one unit of length or one radian is `math::SCALE`). The crate models
//! the logic of the controller: mode switching, mouse look, ground
//! probing, movement smoothing, jumping and projectile bookkeeping.
//! Rendering, windowing and the physics integrator are collaborators
//! that feed plain values in and take plain values out.

pub mod ground;
pub mod input;
pub mod look;
pub mod math;
pub mod motion;
pub mod session;
pub mod shoot;
pub mod state;
