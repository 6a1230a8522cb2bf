//! Closed ranges of scalars: acceptance windows for ray parameters and clamp
//! ranges for colour channels.

use crate::engine::scalar::{Scalar, RAW_MAX, RAW_MIN};
use vstd::prelude::*;

verus! {

/// The closed range from `min` to `max`. A range whose `min` exceeds its `max`
/// holds no value.
#[derive(Clone, Copy, Debug, PartialEq, Eq, Structural)]
pub struct Interval {
    pub min: Scalar,
    pub max: Scalar,
}

impl Interval {
    /// The range that holds no value: from infinity down to minus infinity.
    pub open spec fn empty_spec() -> Interval {
        Interval { min: Scalar { raw: RAW_MAX }, max: Scalar { raw: RAW_MIN } }
    }

    /// The range from minus infinity to infinity.
    pub open spec fn universe_spec() -> Interval {
        Interval { min: Scalar { raw: RAW_MIN }, max: Scalar { raw: RAW_MAX } }
    }

    /// `x` lies in the range, bounds included.
    pub open spec fn contains_spec(self, x: Scalar) -> bool {
        self.min.raw <= x.raw <= self.max.raw
    }

    /// `x` lies strictly between the bounds.
    pub open spec fn surrounds_spec(self, x: Scalar) -> bool {
        self.min.raw < x.raw < self.max.raw
    }

    /// `x` moved to the nearer bound where it lies outside; the lower bound is
    /// tested first.
    pub open spec fn clamp_spec(self, x: Scalar) -> Scalar {
        if x.raw < self.min.raw {
            self.min
        } else if x.raw > self.max.raw {
            self.max
        } else {
            x
        }
    }

    /// The range from `min` to `max`.
    pub fn new(min: Scalar, max: Scalar) -> (r: Interval)
        ensures
            r == (Interval { min, max }),
    {
        Interval { min, max }
    }

    /// The range that holds no value.
    pub fn empty() -> (r: Interval)
        ensures
            r == Interval::empty_spec(),
    {
        Interval { min: Scalar::infinity(), max: Scalar::new(RAW_MIN) }
    }

    /// The range that holds every value arithmetic can produce.
    pub fn universe() -> (r: Interval)
        ensures
            r == Interval::universe_spec(),
    {
        Interval { min: Scalar::new(RAW_MIN), max: Scalar::infinity() }
    }

    /// The width of the range.
    pub fn size(&self) -> (r: Scalar)
        ensures
            r == self.max.minus(self.min),
    {
        self.max - self.min
    }

    /// Whether `x` lies in the range, bounds included.
    pub fn contains(&self, x: Scalar) -> (r: bool)
        ensures
            r == self.contains_spec(x),
    {
        self.min.raw <= x.raw && x.raw <= self.max.raw
    }

    /// Whether `x` lies strictly between the bounds.
    pub fn surrounds(&self, x: Scalar) -> (r: bool)
        ensures
            r == self.surrounds_spec(x),
    {
        self.min.raw < x.raw && x.raw < self.max.raw
    }

    /// `x` forced into the range.
    pub fn clamp(&self, x: Scalar) -> (r: Scalar)
        ensures
            r == self.clamp_spec(x),
            self.min.raw <= self.max.raw ==> self.contains_spec(r),
    {
        if x.raw < self.min.raw {
            self.min
        } else if x.raw > self.max.raw {
            self.max
        } else {
            x
        }
    }

    /// The empty range contains no scalar.
    pub proof fn lemma_empty_contains_nothing(x: Scalar)
        ensures
            !Interval::empty_spec().contains_spec(x),
    {
    }

    /// The universe contains every scalar of the arithmetic range.
    pub proof fn lemma_universe_contains_all(x: Scalar)
        requires
            x.in_range(),
        ensures
            Interval::universe_spec().contains_spec(x),
    {
    }

    /// Clamping into a range whose bounds are in order lands inside the range,
    /// and leaves a value that is already inside where it is.
    pub proof fn lemma_clamp_within(self, x: Scalar)
        requires
            self.min.raw <= self.max.raw,
        ensures
            self.contains_spec(self.clamp_spec(x)),
            self.contains_spec(x) ==> self.clamp_spec(x) == x,
    {
    }
}

impl Default for Interval {
    /// The empty range.
    fn default() -> (r: Interval)
        ensures
            r == Interval::empty_spec(),
    {
        Interval::empty()
    }
}

} // verus!
