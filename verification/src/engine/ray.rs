//! Rays: half-lines given by an origin and a direction.

use crate::engine::scalar::Scalar;
use crate::engine::vec3::{Point3, Vec3};
use vstd::prelude::*;

verus! {

/// The half-line `origin + t * direction`.
#[derive(Clone, Copy, Debug, PartialEq, Eq, Structural)]
pub struct Ray {
    pub origin: Point3,
    pub direction: Vec3,
}

impl Ray {
    /// The point of the ray at parameter `t`.
    pub open spec fn at_spec(self, t: Scalar) -> Point3 {
        self.origin.plus(self.direction.scaled(t))
    }

    /// The ray from `origin` along `direction`.
    pub fn new(origin: Point3, direction: Vec3) -> (r: Ray)
        ensures
            r == (Ray { origin, direction }),
    {
        Ray { origin, direction }
    }

    /// The ray's origin.
    pub fn origin(&self) -> (r: Point3)
        ensures
            r == self.origin,
    {
        self.origin
    }

    /// The ray's direction.
    pub fn direction(&self) -> (r: Vec3)
        ensures
            r == self.direction,
    {
        self.direction
    }

    /// Replaces the ray's origin.
    pub fn set_origin(&mut self, origin: Point3)
        ensures
            *final(self) == (Ray { origin, direction: old(self).direction }),
    {
        self.origin = origin;
    }

    /// Replaces the ray's direction.
    pub fn set_direction(&mut self, direction: Vec3)
        ensures
            *final(self) == (Ray { origin: old(self).origin, direction }),
    {
        self.direction = direction;
    }

    /// The point of the ray at parameter `t`.
    pub fn at(&self, t: Scalar) -> (p: Point3)
        ensures
            p == self.at_spec(t),
    {
        self.origin + t * self.direction
    }
}

impl Default for Ray {
    /// The ray that starts at the origin of space and has no direction.
    fn default() -> (r: Ray)
        ensures
            r == (Ray { origin: Vec3::zero_spec(), direction: Vec3::zero_spec() }),
    {
        Ray { origin: Vec3::zero(), direction: Vec3::zero() }
    }
}

} // verus!
