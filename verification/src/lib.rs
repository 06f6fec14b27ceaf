//! Pursuit steering for a sound-hunting monster agent.
//!
//! The library models the agent's perception of sound emitters (loudest
//! source wins, exponential falloff with distance) and its per-tick steering
//! update (acceleration toward the chosen sound, speed clamping, terrain
//! hover correction, random-walk yaw drift, facing opposite to motion).
//!
//! All quantities are fixed-point integers in milli-units (one unit of
//! length is 1000, one radian is 1000, one second of tick time is 1000),
//! so that every step of the control law is exact integer arithmetic with
//! verified bounds.

pub mod fxp;
pub mod monster;
pub mod perception;
pub mod speaker;
pub mod steering;
pub mod vec3;
