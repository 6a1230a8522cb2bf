//! A small ray caster on exact, saturating fixed-point arithmetic.
//!
//! A pinhole camera is projected through a pixel grid; every pixel's colour comes
//! from casting rays into a scene of primitives and testing them for intersection.
//! All quantities are [`engine::scalar::Scalar`] values: signed counts of billionths
//! whose arithmetic saturates instead of overflowing, so every operation is total
//! and has an exact mathematical description.

pub mod engine;
