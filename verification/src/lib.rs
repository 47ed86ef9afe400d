//! Core simulation engine for a toroidal-arena asteroids game.
//!
//! All geometry is fixed-point: lengths are milli-pixels, angles are
//! milli-radians, times are microseconds, speeds are milli-pixels per
//! second. Rendering, input polling and timing live outside this crate;
//! the engine consumes plain values (input flags, a frame delta, the
//! current viewport size) and exposes its whole state as plain data.

pub mod asteroid;
pub mod bullet;
pub mod game;
pub mod geom;
pub mod player;
pub mod rng;
