//! Camera-relative rigid-body movement and orientation model for a small 3D
//! flight scene, in exact fixed-point arithmetic.
//!
//! The library owns the numerical core: a free-look camera whose orthonormal
//! basis is rebuilt from accumulated yaw and pitch every tick, and a player
//! body that gathers camera-relative forces, caps its speed, damps its
//! velocity when no force arrives, and nudges its visual rotation toward the
//! current heading. Window plumbing, input polling, mesh loading and draw
//! submission live outside, and hand the model plain per-tick snapshots.

pub mod camera;
pub mod fixed;
pub mod input;
pub mod player;
pub mod projectiles;
pub mod quat;
pub mod sqrt;
pub mod transform;
pub mod trig;
pub mod vec3;
