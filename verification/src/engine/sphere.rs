//! Spheres and their intersection with rays.

use crate::engine::hittable::{
    faces_front, lemma_oriented_normal_opposes_ray, oriented_normal, HitRecord, Hittable,
};
use crate::engine::interval::Interval;
use crate::engine::ray::Ray;
use crate::engine::scalar::Scalar;
use crate::engine::vec3::{dot, dot_spec, Point3, Vec3};
use vstd::prelude::*;

verus! {

/// The sphere round `center` with the given `radius`.
#[derive(Clone, Copy, Debug, PartialEq, Eq, Structural)]
pub struct Sphere {
    pub center: Point3,
    pub radius: Scalar,
}

impl Sphere {
    /// From the ray's origin to the centre.
    pub open spec fn oc(self, ray: Ray) -> Vec3 {
        self.center.minus(ray.origin)
    }

    /// The quadratic's leading coefficient: the squared length of the direction.
    pub open spec fn quad_a(ray: Ray) -> Scalar {
        ray.direction.length_squared_spec()
    }

    /// Half the quadratic's linear coefficient, sign reversed: direction dot `oc`.
    pub open spec fn quad_h(self, ray: Ray) -> Scalar {
        dot_spec(ray.direction, self.oc(ray))
    }

    /// The quadratic's constant: squared distance of the origin from the centre,
    /// less the squared radius.
    pub open spec fn quad_c(self, ray: Ray) -> Scalar {
        self.oc(ray).length_squared_spec().minus(self.radius.times(self.radius))
    }

    /// `h * h - a * c`.
    pub open spec fn discriminant(self, ray: Ray) -> Scalar {
        self.quad_h(ray).times(self.quad_h(ray)).minus(Sphere::quad_a(ray).times(self.quad_c(ray)))
    }

    /// The nearer root: `(h - sqrt(discriminant)) / a`.
    pub open spec fn near_root(self, ray: Ray) -> Scalar {
        self.quad_h(ray).minus(self.discriminant(ray).sqrt_spec()).over(Sphere::quad_a(ray))
    }

    /// The farther root: `(h + sqrt(discriminant)) / a`.
    pub open spec fn far_root(self, ray: Ray) -> Scalar {
        self.quad_h(ray).plus(self.discriminant(ray).sqrt_spec()).over(Sphere::quad_a(ray))
    }

    /// The ray parameter that is reported for the window `ray_t`: none for a ray
    /// without direction or a negative discriminant; otherwise the nearer root if
    /// the window contains it, else the farther root if the window contains that.
    pub open spec fn selected_root(self, ray: Ray, ray_t: Interval) -> Option<Scalar> {
        if Sphere::quad_a(ray).raw == 0 || self.discriminant(ray).raw < 0 {
            None
        } else if ray_t.contains_spec(self.near_root(ray)) {
            Some(self.near_root(ray))
        } else if ray_t.contains_spec(self.far_root(ray)) {
            Some(self.far_root(ray))
        } else {
            None
        }
    }

    /// The outward normal at `p`: from the centre to `p`, divided by the radius.
    pub open spec fn outward_normal(self, p: Point3) -> Vec3 {
        p.minus(self.center).over(self.radius)
    }

    /// The record of the intersection at ray parameter `t`.
    pub open spec fn record_at(self, ray: Ray, t: Scalar) -> HitRecord {
        let p = ray.at_spec(t);
        HitRecord {
            p,
            normal: oriented_normal(ray, self.outward_normal(p)),
            t,
            front_face: faces_front(ray, self.outward_normal(p)),
        }
    }

    /// For a ray with a direction and a discriminant that is not negative, the
    /// nearer root is no larger than the farther one.
    pub proof fn lemma_roots_ordered(self, ray: Ray)
        ensures
            Sphere::quad_a(ray).raw >= 0,
            Sphere::quad_a(ray).raw != 0 ==> self.near_root(ray).raw <= self.far_root(ray).raw,
    {
        let a = Sphere::quad_a(ray);
        let h = self.quad_h(ray);
        let s = self.discriminant(ray).sqrt_spec();
        ray.direction.lemma_length_squared_nonnegative();
        if a.raw != 0 {
            self.discriminant(ray).lemma_sqrt_nonnegative();
            h.lemma_minus_le_plus(s);
            h.minus(s).lemma_over_monotone(h.plus(s), a);
        }
    }

    /// Where both roots lie in the window, the smaller one is reported.
    pub proof fn lemma_smaller_root_reported(self, ray: Ray, ray_t: Interval)
        requires
            Sphere::quad_a(ray).raw != 0,
            self.discriminant(ray).raw >= 0,
            ray_t.contains_spec(self.near_root(ray)),
            ray_t.contains_spec(self.far_root(ray)),
        ensures
            self.hit_spec(ray, ray_t) matches Some(rec) && rec.t == self.near_root(ray),
            self.near_root(ray).raw <= self.far_root(ray).raw,
    {
        self.lemma_roots_ordered(ray);
    }

    /// The sphere round `center`; a negative `radius` counts as zero.
    pub fn new(center: Point3, radius: Scalar) -> (r: Sphere)
        ensures
            r.center == center,
            r.radius == if radius.raw < 0 {
                Scalar { raw: 0 }
            } else {
                radius
            },
    {
        Sphere { center, radius: if radius.raw < 0 { Scalar::zero() } else { radius } }
    }

    /// The sphere's centre.
    pub fn center(&self) -> (r: Point3)
        ensures
            r == self.center,
    {
        self.center
    }

    /// The sphere's radius.
    pub fn radius(&self) -> (r: Scalar)
        ensures
            r == self.radius,
    {
        self.radius
    }

    /// Replaces the sphere's centre.
    pub fn set_center(&mut self, center: Point3)
        ensures
            *final(self) == (Sphere { center, radius: old(self).radius }),
    {
        self.center = center;
    }

    /// Replaces the sphere's radius, which is stored as it is given.
    pub fn set_radius(&mut self, radius: Scalar)
        ensures
            *final(self) == (Sphere { center: old(self).center, radius }),
    {
        self.radius = radius;
    }

    /// Fills `rec` with the intersection at ray parameter `t`.
    fn record_hit(&self, ray: &Ray, t: Scalar, rec: &mut HitRecord)
        ensures
            *final(rec) == self.record_at(*ray, t),
    {
        rec.set_t(t);
        rec.set_p(ray.at(rec.t()));
        let outward_normal: Vec3 = (rec.p() - self.center()) / self.radius();
        rec.set_face_normal(ray, &outward_normal);
    }
}

impl Hittable for Sphere {
    open spec fn hit_spec(&self, ray: Ray, ray_t: Interval) -> Option<HitRecord> {
        match self.selected_root(ray, ray_t) {
            Some(t) => Some(self.record_at(ray, t)),
            None => None,
        }
    }

    proof fn lemma_hit_within(&self, ray: Ray, ray_t: Interval) {
    }

    proof fn lemma_hit_narrowed(&self, ray: Ray, ray_t: Interval, upper: Scalar) {
        self.lemma_roots_ordered(ray);
    }

    proof fn lemma_hit_opposes_ray(&self, ray: Ray, ray_t: Interval) {
        if let Some(t) = self.selected_root(ray, ray_t) {
            lemma_oriented_normal_opposes_ray(ray, self.outward_normal(ray.at_spec(t)));
        }
    }

    fn hit(&self, ray: &Ray, ray_t: Interval, rec: &mut HitRecord) -> (found: bool)
        ensures
            found <==> Sphere::quad_a(*ray).raw != 0 && self.discriminant(*ray).raw >= 0 && (
            ray_t.contains_spec(self.near_root(*ray)) || ray_t.contains_spec(self.far_root(*ray))),
    {
        proof {
            self.lemma_hit_within(*ray, ray_t);
            self.lemma_hit_opposes_ray(*ray, ray_t);
        }
        let oc: Vec3 = self.center - ray.origin();
        let a: Scalar = ray.direction().length_squared();
        let h: Scalar = dot(&ray.direction(), &oc);
        let c: Scalar = oc.length_squared() - self.radius * self.radius;
        let discriminant: Scalar = h * h - a * c;

        if a.raw == 0 || discriminant.raw < 0 {
            return false;
        }
        let sqrt_discriminant: Scalar = discriminant.sqrt();

        let root1: Scalar = (h - sqrt_discriminant) / a;
        if ray_t.contains(root1) {
            self.record_hit(ray, root1, rec);
            return true;
        }
        let root2: Scalar = (h + sqrt_discriminant) / a;
        if ray_t.contains(root2) {
            self.record_hit(ray, root2, rec);
            return true;
        }
        false
    }
}

} // verus!
