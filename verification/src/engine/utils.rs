//! Constants and the random source.

use crate::engine::scalar::{Scalar, RAW_MAX, SCALE};
use rand::Rng;
use vstd::prelude::*;

verus! {

/// The raw value of the scalar that stands for infinity.
pub const INFINITY: i64 = RAW_MAX;

/// The raw value of the scalar nearest to the circle constant.
pub const PI: i64 = 3_141_592_654;

/// Draws from the thread's generator: calls `rand::Rng::random_range` on
/// `rand::rng()` with the half-open range `low..high`. This contract is taken on
/// trust from that crate: for a range that is not empty the call returns a value
/// of the range. Which one is left open, so two calls may differ. The generator
/// seeds itself from the operating system on a thread's first draw.
#[verifier::external_body]
fn uniform_raw(low: i64, high: i64) -> (r: i64)
    requires
        low < high,
    ensures
        low <= r < high,
{
    rand::rng().random_range(low..high)
}

/// Degrees converted to radians: `degrees * PI / 180`.
pub fn deg_to_rad(degrees: Scalar) -> (r: Scalar)
    ensures
        r == degrees.times(Scalar { raw: PI }).over(Scalar::from_int_spec(180)),
{
    degrees * Scalar::new(PI) / Scalar::from_int(180)
}

/// A random scalar in `[0, 1)`.
pub fn random_0_to_1() -> (r: Scalar)
    ensures
        0 <= r.raw < SCALE,
{
    Scalar::new(uniform_raw(0, SCALE))
}

/// A random scalar in `[min, max)`.
pub fn random_min_to_max(min: Scalar, max: Scalar) -> (r: Scalar)
    requires
        min.raw < max.raw,
    ensures
        min.raw <= r.raw < max.raw,
{
    Scalar::new(uniform_raw(min.raw, max.raw))
}

} // verus!
