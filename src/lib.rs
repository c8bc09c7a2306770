//! A small arcade simulation: UFOs are spawned at the right edge, steered by a
//! movement strategy, leave a bounded trail behind them, and change colour when
//! two of them come close.
//!
//! Positions and speeds are fixed-point integers in thousandths of a pixel
//! (one frame is one unit of time).

use vstd::prelude::*;

pub mod chance;
pub mod geometry;
pub mod laws;
pub mod render;
pub mod strategy;
pub mod ufo;
pub mod world;

verus! {

/// Fixed-point units per pixel.
pub const UNIT: i64 = 1000;

/// The speed of a UFO, per axis, in units per frame (one pixel per frame).
pub const SPEED: i64 = 1000;

/// Number of trail points a UFO keeps.
pub const AFTER_IMAGE_COUNT: usize = 100;

} // verus!
