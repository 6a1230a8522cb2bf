//! Scenes: ordered collections of shared primitives, hit as one.

use crate::engine::hittable::{HitRecord, Hittable};
use crate::engine::interval::Interval;
use crate::engine::ray::Ray;
use crate::engine::scalar::Scalar;
use crate::engine::vec3::dot_spec;
use std::rc::Rc;
use vstd::prelude::*;

verus! {

/// An ordered collection of shared primitives of one kind.
pub struct HittableList<H: Hittable> {
    pub objects: Vec<Rc<H>>,
}

/// The upper bound of the search window after `found` was reported: the
/// parameter of that intersection, or the window's own bound where there is none.
pub open spec fn closest_so_far(found: Option<HitRecord>, ray_t: Interval) -> Scalar {
    match found {
        Some(rec) => rec.t,
        None => ray_t.max,
    }
}

/// The intersection that a scan of the first `n` objects reports: each object is
/// tested within the window as shrunk by the objects before it, and a hit
/// replaces what was found before.
pub open spec fn scan_hits<H: Hittable>(
    objects: Seq<Rc<H>>,
    n: nat,
    ray: Ray,
    ray_t: Interval,
) -> Option<HitRecord>
    decreases n,
{
    if n == 0 {
        None
    } else {
        let before = scan_hits(objects, (n - 1) as nat, ray, ray_t);
        let window = Interval { min: ray_t.min, max: closest_so_far(before, ray_t) };
        match objects[n - 1].hit_spec(ray, window) {
            Some(rec) => Some(rec),
            None => before,
        }
    }
}

/// `rec` is what some of the first `n` objects reports on its own within `ray_t`,
/// and none of them reports anything closer.
pub open spec fn is_closest_of<H: Hittable>(
    objects: Seq<Rc<H>>,
    n: nat,
    ray: Ray,
    ray_t: Interval,
    rec: HitRecord,
) -> bool {
    &&& exists|i: int| 0 <= i < n && #[trigger] objects[i].hit_spec(ray, ray_t) == Some(rec)
    &&& forall|j: int|
        0 <= j < n ==> (#[trigger] objects[j].hit_spec(ray, ray_t) matches Some(other)
            ==> rec.t.raw <= other.t.raw)
}

/// A scan reports nothing exactly when no object is hit on its own, and what it
/// reports is the closest of the objects' own intersections.
pub proof fn lemma_scan_finds_closest<H: Hittable>(
    objects: Seq<Rc<H>>,
    n: nat,
    ray: Ray,
    ray_t: Interval,
)
    requires
        n <= objects.len(),
    ensures
        scan_hits(objects, n, ray, ray_t) is None <==> forall|i: int|
            0 <= i < n ==> #[trigger] objects[i].hit_spec(ray, ray_t) is None,
        scan_hits(objects, n, ray, ray_t) matches Some(rec) ==> is_closest_of(
            objects,
            n,
            ray,
            ray_t,
            rec,
        ),
    decreases n,
{
    if n > 0 {
        let m = (n - 1) as nat;
        lemma_scan_finds_closest(objects, m, ray, ray_t);
        let before = scan_hits(objects, m, ray, ray_t);
        let last = objects[n - 1];
        match before {
            None => {
                assert(Interval { min: ray_t.min, max: ray_t.max } == ray_t);
                match last.hit_spec(ray, ray_t) {
                    Some(rec) => {
                        assert(is_closest_of(objects, n, ray, ray_t, rec));
                    },
                    None => {},
                }
            },
            Some(prev) => {
                let i = choose|i: int|
                    0 <= i < m && #[trigger] objects[i].hit_spec(ray, ray_t) == Some(prev);
                objects[i].lemma_hit_within(ray, ray_t);
                last.lemma_hit_narrowed(ray, ray_t, prev.t);
                match last.hit_spec(ray, Interval { min: ray_t.min, max: prev.t }) {
                    Some(rec) => {
                        assert(is_closest_of(objects, n, ray, ray_t, rec));
                    },
                    None => {
                        assert(is_closest_of(objects, n, ray, ray_t, prev));
                    },
                }
            },
        }
    }
}

/// The order of the objects does not matter for the distance of what is
/// reported: two collections that hold the same objects agree on whether there
/// is an intersection and on its ray parameter. Where several objects are hit
/// at that same parameter, the order decides which of them is reported.
pub proof fn lemma_scan_ignores_order<H: Hittable>(
    first: Seq<Rc<H>>,
    second: Seq<Rc<H>>,
    ray: Ray,
    ray_t: Interval,
)
    requires
        forall|i: int| 0 <= i < first.len() ==> second.contains(#[trigger] first[i]),
        forall|j: int| 0 <= j < second.len() ==> first.contains(#[trigger] second[j]),
    ensures
        scan_hits(first, first.len(), ray, ray_t) is None <==> scan_hits(
            second,
            second.len(),
            ray,
            ray_t,
        ) is None,
        scan_hits(first, first.len(), ray, ray_t) matches Some(a) ==> scan_hits(
            second,
            second.len(),
            ray,
            ray_t,
        ) matches Some(b) && a.t == b.t,
{
    lemma_scan_finds_closest(first, first.len(), ray, ray_t);
    lemma_scan_finds_closest(second, second.len(), ray, ray_t);
    let in_first = scan_hits(first, first.len(), ray, ray_t);
    let in_second = scan_hits(second, second.len(), ray, ray_t);
    if let Some(a) = in_first {
        let i = choose|i: int|
            0 <= i < first.len() && #[trigger] first[i].hit_spec(ray, ray_t) == Some(a);
        assert(second.contains(first[i]));
        let j = choose|j: int| 0 <= j < second.len() && second[j] == first[i];
        assert(second[j].hit_spec(ray, ray_t) == Some(a));
        let b = in_second->Some_0;
        let k = choose|k: int|
            0 <= k < second.len() && #[trigger] second[k].hit_spec(ray, ray_t) == Some(b);
        assert(first.contains(second[k]));
        let m = choose|m: int| 0 <= m < first.len() && first[m] == second[k];
        assert(first[m].hit_spec(ray, ray_t) == Some(b));
    } else {
        assert forall|j: int| 0 <= j < second.len() implies #[trigger] second[j].hit_spec(
            ray,
            ray_t,
        ) is None by {
            assert(first.contains(second[j]));
            let m = choose|m: int| 0 <= m < first.len() && first[m] == second[j];
            assert(first[m].hit_spec(ray, ray_t) is None);
        }
    }
}

/// What a scan reports lies in the window.
pub proof fn lemma_scan_within<H: Hittable>(
    objects: Seq<Rc<H>>,
    n: nat,
    ray: Ray,
    ray_t: Interval,
)
    requires
        n <= objects.len(),
    ensures
        scan_hits(objects, n, ray, ray_t) matches Some(rec) ==> ray_t.contains_spec(rec.t),
    decreases n,
{
    if n > 0 {
        let m = (n - 1) as nat;
        lemma_scan_within(objects, m, ray, ray_t);
        let before = scan_hits(objects, m, ray, ray_t);
        let window = Interval { min: ray_t.min, max: closest_so_far(before, ray_t) };
        objects[n - 1].lemma_hit_within(ray, window);
    }
}

/// The normal that a scan reports is turned against the ray.
pub proof fn lemma_scan_opposes_ray<H: Hittable>(
    objects: Seq<Rc<H>>,
    n: nat,
    ray: Ray,
    ray_t: Interval,
)
    requires
        n <= objects.len(),
    ensures
        scan_hits(objects, n, ray, ray_t) matches Some(rec) ==> dot_spec(
            rec.normal,
            ray.direction,
        ).raw <= 0,
    decreases n,
{
    if n > 0 {
        let m = (n - 1) as nat;
        lemma_scan_opposes_ray(objects, m, ray, ray_t);
        let before = scan_hits(objects, m, ray, ray_t);
        let window = Interval { min: ray_t.min, max: closest_so_far(before, ray_t) };
        objects[n - 1].lemma_hit_opposes_ray(ray, window);
    }
}

/// Lowering the window's upper bound keeps what a scan reports as long as it
/// still fits, and leaves nothing otherwise.
pub proof fn lemma_scan_narrowed<H: Hittable>(
    objects: Seq<Rc<H>>,
    n: nat,
    ray: Ray,
    ray_t: Interval,
    upper: Scalar,
)
    requires
        n <= objects.len(),
        upper.raw <= ray_t.max.raw,
    ensures
        scan_hits(objects, n, ray, Interval { min: ray_t.min, max: upper }) == (match scan_hits(
            objects,
            n,
            ray,
            ray_t,
        ) {
            Some(rec) => if rec.t.raw <= upper.raw {
                Some(rec)
            } else {
                None
            },
            None => None,
        }),
    decreases n,
{
    if n > 0 {
        let m = (n - 1) as nat;
        let narrow = Interval { min: ray_t.min, max: upper };
        lemma_scan_narrowed(objects, m, ray, ray_t, upper);
        lemma_scan_within(objects, m, ray, ray_t);
        let before = scan_hits(objects, m, ray, ray_t);
        let last = objects[n - 1];
        let window = Interval { min: ray_t.min, max: closest_so_far(before, ray_t) };
        last.lemma_hit_within(ray, window);
        match before {
            None => {
                last.lemma_hit_narrowed(ray, window, upper);
            },
            Some(prev) => {
                if prev.t.raw > upper.raw {
                    last.lemma_hit_narrowed(ray, window, upper);
                }
            },
        }
    }
}

impl<H: Hittable> HittableList<H> {
    /// An empty scene.
    pub fn new() -> (r: HittableList<H>)
        ensures
            r.objects@ == Seq::<Rc<H>>::empty(),
    {
        HittableList { objects: Vec::new() }
    }

    /// Appends `object` to the scene.
    pub fn add(&mut self, object: Rc<H>)
        ensures
            final(self).objects@ == old(self).objects@.push(object),
    {
        self.objects.push(object);
    }

    /// Removes every object from the scene.
    pub fn clear(&mut self)
        ensures
            final(self).objects@ == Seq::<Rc<H>>::empty(),
    {
        self.objects.clear();
    }
}

impl<H: Hittable> Hittable for HittableList<H> {
    open spec fn hit_spec(&self, ray: Ray, ray_t: Interval) -> Option<HitRecord> {
        scan_hits(self.objects@, self.objects@.len(), ray, ray_t)
    }

    proof fn lemma_hit_within(&self, ray: Ray, ray_t: Interval) {
        lemma_scan_within(self.objects@, self.objects@.len(), ray, ray_t);
    }

    proof fn lemma_hit_narrowed(&self, ray: Ray, ray_t: Interval, upper: Scalar) {
        lemma_scan_narrowed(self.objects@, self.objects@.len(), ray, ray_t, upper);
    }

    proof fn lemma_hit_opposes_ray(&self, ray: Ray, ray_t: Interval) {
        lemma_scan_opposes_ray(self.objects@, self.objects@.len(), ray, ray_t);
    }

    fn hit(&self, ray: &Ray, ray_t: Interval, rec: &mut HitRecord) -> (found: bool)
        ensures
            !found <==> forall|i: int|
                0 <= i < self.objects@.len() ==> #[trigger] self.objects@[i].hit_spec(*ray, ray_t)
                    is None,
            found ==> is_closest_of(self.objects@, self.objects@.len(), *ray, ray_t, *final(rec)),
    {
        let mut temp_rec: HitRecord = HitRecord::new();
        let mut hit_anything: bool = false;
        let mut closest: Scalar = ray_t.max;
        let mut i: usize = 0;
        while i < self.objects.len()
            invariant
                i <= self.objects@.len(),
                hit_anything == scan_hits(self.objects@, i as nat, *ray, ray_t).is_some(),
                hit_anything ==> scan_hits(self.objects@, i as nat, *ray, ray_t) == Some(*rec),
                !hit_anything ==> *rec == *old(rec),
                closest == closest_so_far(scan_hits(self.objects@, i as nat, *ray, ray_t), ray_t),
            decreases self.objects@.len() - i,
        {
            if self.objects[i].hit(ray, Interval::new(ray_t.min, closest), &mut temp_rec) {
                hit_anything = true;
                closest = temp_rec.t;
                *rec = temp_rec;
            }
            i += 1;
        }
        proof {
            lemma_scan_finds_closest(self.objects@, self.objects@.len(), *ray, ray_t);
            lemma_scan_within(self.objects@, self.objects@.len(), *ray, ray_t);
            lemma_scan_opposes_ray(self.objects@, self.objects@.len(), *ray, ray_t);
        }
        hit_anything
    }
}

} // verus!
