//! Core simulation logic for a small top-down 2D game: a single player
//! actor driven by keyboard thrust, integrated at a fixed timestep,
//! speed-clamped, and wrapped at the screen edges.
//!
//! All world quantities (positions, velocities, angles, times) are held as
//! fixed-point `i64` counts of one millionth of a unit (see [`fixed::SCALE`]),
//! so that every kinematic step is exact integer arithmetic. The windowing,
//! rendering and event plumbing that surround this core belong to a game
//! engine and stay outside the library; they hand in plain values (key
//! events, screen sizes, tick lengths) and read back the actor's state.

pub mod entity;
pub mod fixed;
pub mod input;
pub mod vec2;
