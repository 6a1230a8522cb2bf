//! Intersection records and the capability of being hit by a ray.

use crate::engine::interval::Interval;
use crate::engine::ray::Ray;
use crate::engine::scalar::Scalar;
use crate::engine::vec3::{dot, dot_spec, lemma_dot_commutes, lemma_dot_negated, Point3, Vec3};
use core::ops::Neg;
use vstd::prelude::*;

verus! {

/// Where and how a ray met a surface.
#[derive(Clone, Copy, Debug, PartialEq, Eq, Structural)]
pub struct HitRecord {
    /// The point where the ray meets the surface.
    pub p: Point3,
    /// The surface normal at that point, turned against the ray.
    pub normal: Vec3,
    /// The ray parameter of the point.
    pub t: Scalar,
    /// Whether the ray arrived from outside the surface.
    pub front_face: bool,
}

/// The ray runs against the outward normal: it arrives from outside.
pub open spec fn faces_front(ray: Ray, outward_normal: Vec3) -> bool {
    dot_spec(ray.direction, outward_normal).raw < 0
}

/// The outward normal, reversed where the ray arrives from inside.
pub open spec fn oriented_normal(ray: Ray, outward_normal: Vec3) -> Vec3 {
    if faces_front(ray, outward_normal) {
        outward_normal
    } else {
        outward_normal.negated()
    }
}

/// The oriented normal never runs along the ray: its dot product with the ray's
/// direction is zero or negative.
pub proof fn lemma_oriented_normal_opposes_ray(ray: Ray, outward_normal: Vec3)
    requires
        outward_normal.in_range(),
    ensures
        dot_spec(oriented_normal(ray, outward_normal), ray.direction).raw <= 0,
{
    lemma_dot_commutes(ray.direction, outward_normal);
    lemma_dot_negated(outward_normal, ray.direction);
}

impl HitRecord {
    /// The record with every field zero.
    pub open spec fn new_spec() -> HitRecord {
        HitRecord {
            p: Vec3::zero_spec(),
            normal: Vec3::zero_spec(),
            t: Scalar { raw: 0 },
            front_face: false,
        }
    }

    /// A blank record.
    pub fn new() -> (r: HitRecord)
        ensures
            r == HitRecord::new_spec(),
    {
        HitRecord { p: Vec3::zero(), normal: Vec3::zero(), t: Scalar::zero(), front_face: false }
    }

    /// The point of intersection.
    pub fn p(&self) -> (r: Point3)
        ensures
            r == self.p,
    {
        self.p
    }

    /// The surface normal.
    pub fn normal(&self) -> (r: Vec3)
        ensures
            r == self.normal,
    {
        self.normal
    }

    /// The ray parameter of the intersection.
    pub fn t(&self) -> (r: Scalar)
        ensures
            r == self.t,
    {
        self.t
    }

    /// Whether the ray arrived from outside.
    pub fn front_face(&self) -> (r: bool)
        ensures
            r == self.front_face,
    {
        self.front_face
    }

    /// Replaces the point of intersection.
    pub fn set_p(&mut self, p: Point3)
        ensures
            *final(self) == (HitRecord { p, ..*old(self) }),
    {
        self.p = p;
    }

    /// Replaces the surface normal.
    pub fn set_normal(&mut self, normal: Vec3)
        ensures
            *final(self) == (HitRecord { normal, ..*old(self) }),
    {
        self.normal = normal;
    }

    /// Replaces the ray parameter.
    pub fn set_t(&mut self, t: Scalar)
        ensures
            *final(self) == (HitRecord { t, ..*old(self) }),
    {
        self.t = t;
    }

    /// Replaces the side flag.
    pub fn set_front_face(&mut self, front_face: bool)
        ensures
            *final(self) == (HitRecord { front_face, ..*old(self) }),
    {
        self.front_face = front_face;
    }

    /// Stores the side from which `ray` struck and the normal turned against it.
    /// `outward_normal` is taken as it is; the caller hands in a unit vector.
    pub fn set_face_normal(&mut self, ray: &Ray, outward_normal: &Vec3)
        ensures
            *final(self) == (HitRecord {
                normal: oriented_normal(*ray, *outward_normal),
                front_face: faces_front(*ray, *outward_normal),
                ..*old(self)
            }),
    {
        self.set_front_face(dot(&ray.direction(), outward_normal).raw < 0);
        self.set_normal(
            if self.front_face() {
                *outward_normal
            } else {
                (*outward_normal).neg()
            },
        );
    }
}

/// Something a ray can hit.
///
/// `hit_spec` names the intersection that `hit` reports. Three laws bind it: the
/// reported parameter lies in the window that was asked for; lowering the
/// window's upper bound keeps the reported intersection as long as it still fits
/// and reports nothing otherwise; and the reported normal never runs along the
/// ray. The second law is what lets a scene shrink its search window to the
/// closest intersection found so far.
pub trait Hittable {
    /// The intersection of `ray` with `self` that is reported for the window `ray_t`.
    spec fn hit_spec(&self, ray: Ray, ray_t: Interval) -> Option<HitRecord>;

    /// A reported intersection lies in the window.
    proof fn lemma_hit_within(&self, ray: Ray, ray_t: Interval)
        ensures
            self.hit_spec(ray, ray_t) matches Some(rec) ==> ray_t.contains_spec(rec.t),
    ;

    /// Lowering the upper bound keeps an intersection that still fits and drops one
    /// that does not.
    proof fn lemma_hit_narrowed(&self, ray: Ray, ray_t: Interval, upper: Scalar)
        requires
            upper.raw <= ray_t.max.raw,
        ensures
            self.hit_spec(ray, Interval { min: ray_t.min, max: upper }) == (match self.hit_spec(
                ray,
                ray_t,
            ) {
                Some(rec) => if rec.t.raw <= upper.raw {
                    Some(rec)
                } else {
                    None
                },
                None => None,
            }),
    ;

    /// The normal of a reported intersection is turned against the ray: its dot
    /// product with the ray's direction is zero or negative.
    proof fn lemma_hit_opposes_ray(&self, ray: Ray, ray_t: Interval)
        ensures
            self.hit_spec(ray, ray_t) matches Some(rec) ==> dot_spec(rec.normal, ray.direction).raw
                <= 0,
    ;

    /// Tests `ray` against `self` within `ray_t`. On a hit the record is
    /// overwritten with the intersection; on a miss it is left as it was.
    fn hit(&self, ray: &Ray, ray_t: Interval, rec: &mut HitRecord) -> (found: bool)
        ensures
            found == self.hit_spec(*ray, ray_t).is_some(),
            found ==> *final(rec) == self.hit_spec(*ray, ray_t).unwrap(),
            found ==> ray_t.contains_spec(final(rec).t),
            found ==> dot_spec(final(rec).normal, ray.direction).raw <= 0,
            !found ==> *final(rec) == *old(rec),
    ;
}

} // verus!
