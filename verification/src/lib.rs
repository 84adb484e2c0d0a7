//! Orbiter field simulator: a fixed population of points whose velocities
//! are nudged by pairwise comparison of their positions each frame, with
//! periodic random resets driven by a permuted congruential generator.
//!
//! Coordinates are exact fixed-point values: `field::SCALE` units make one
//! pixel, so the per-comparison speed increment of 0.0065 pixels is the
//! integer `field::SPEED_INCREMENT` and every update step is exact.

pub mod field;
pub mod rng;
pub mod sim;
