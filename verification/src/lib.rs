//! Simulation core of a small real-time arena combat game.
//!
//! Entities composed of rotating armor shells absorb directional damage,
//! projectiles travel along analytic (exponentially-decaying speed)
//! trajectories, and a fixed-timestep loop advances the whole world
//! deterministically regardless of render framerate.
//!
//! All simulation quantities are fixed-point integers: a scalar carries
//! `FX_ONE` (1000) raw steps per world unit (or per second, or per radian),
//! so every update is exact integer arithmetic with truncating division.
//! Rendering, input polling and window setup are collaborators outside this
//! crate; they exchange plain values with the core.

pub mod app;
pub mod collision;
pub mod computer_controller;
pub mod controller;
pub mod entity;
pub mod components;
pub mod fixed;
pub mod input;
pub mod player_controller;
pub mod mouse_display;
pub mod projectile;
pub mod random;
pub mod store;
pub mod trig;
pub mod util;
