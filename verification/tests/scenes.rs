use raytracing_rs::engine::hittable::{HitRecord, Hittable};
use raytracing_rs::engine::hittable_list::HittableList;
use raytracing_rs::engine::interval::Interval;
use raytracing_rs::engine::ray::Ray;
use raytracing_rs::engine::scalar::Scalar;
use raytracing_rs::engine::sphere::Sphere;
use raytracing_rs::engine::vec3::Vec3;
use std::rc::Rc;

const UNIT: i64 = 1_000_000_000;

fn at_depth(z: i64, radius: i64) -> Rc<Sphere> {
    Rc::new(Sphere::new(
        Vec3::new(Scalar::zero(), Scalar::zero(), Scalar::from_int(z)),
        Scalar::from_int(radius),
    ))
}

fn axis_ray() -> Ray {
    Ray::new(Vec3::zero(), Vec3::new(Scalar::zero(), Scalar::zero(), Scalar::new(-UNIT)))
}

fn ahead() -> Interval {
    Interval::new(Scalar::zero(), Scalar::infinity())
}

fn alone(sphere: &Sphere, ray: &Ray, window: Interval) -> Option<HitRecord> {
    let mut rec = HitRecord::new();
    if sphere.hit(ray, window, &mut rec) {
        Some(rec)
    } else {
        None
    }
}

#[test]
fn empty_scene_is_never_hit() {
    let world: HittableList<Sphere> = HittableList::new();
    let mut rec = HitRecord::new();
    rec.set_t(Scalar::new(9));
    let before = rec;
    assert!(!world.hit(&axis_ray(), Interval::universe(), &mut rec));
    assert_eq!(rec, before);
}

#[test]
fn add_appends_and_clear_empties() {
    let mut world = HittableList::new();
    world.add(at_depth(-3, 1));
    world.add(at_depth(-2, 1));
    assert_eq!(world.objects.len(), 2);
    assert_eq!(world.objects[0].center().z(), Scalar::from_int(-3));
    assert_eq!(world.objects[1].center().z(), Scalar::from_int(-2));
    world.clear();
    assert_eq!(world.objects.len(), 0);
    assert!(!world.hit(&axis_ray(), ahead(), &mut HitRecord::new()));
}

#[test]
fn overlapping_spheres_closest_wins_in_either_order() {
    let far = at_depth(-3, 1);
    let near = at_depth(-2, 1);
    let t_far = alone(&far, &axis_ray(), ahead()).unwrap().t();
    let t_near = alone(&near, &axis_ray(), ahead()).unwrap().t();
    assert_eq!(t_far, Scalar::from_int(2));
    assert_eq!(t_near, Scalar::from_int(1));

    let mut far_first = HittableList::new();
    far_first.add(far.clone());
    far_first.add(near.clone());
    let mut near_first = HittableList::new();
    near_first.add(near.clone());
    near_first.add(far.clone());

    let mut rec = HitRecord::new();
    assert!(far_first.hit(&axis_ray(), ahead(), &mut rec));
    assert_eq!(rec.t(), Scalar::from_int(1));
    assert_eq!(Some(rec), alone(&near, &axis_ray(), ahead()));

    let mut other = HitRecord::new();
    assert!(near_first.hit(&axis_ray(), ahead(), &mut other));
    assert_eq!(other, rec);
}

#[test]
fn scene_hit_is_the_minimum_of_the_single_hits() {
    let spheres = [at_depth(-9, 2), at_depth(-4, 1), at_depth(-6, 3), at_depth(5, 1)];
    let mut world = HittableList::new();
    let mut closest: Option<HitRecord> = None;
    for sphere in spheres.iter() {
        world.add(sphere.clone());
        if let Some(rec) = alone(sphere, &axis_ray(), ahead()) {
            if closest.map_or(true, |best| rec.t().raw() < best.t().raw()) {
                closest = Some(rec);
            }
        }
    }
    let mut rec = HitRecord::new();
    assert!(world.hit(&axis_ray(), ahead(), &mut rec));
    assert_eq!(Some(rec), closest);
    assert_eq!(rec.t(), Scalar::from_int(3));
}

#[test]
fn scene_respects_the_window() {
    let mut world = HittableList::new();
    world.add(at_depth(-3, 1));
    world.add(at_depth(-2, 1));
    let mut rec = HitRecord::new();
    let beyond_near = Interval::new(Scalar::new(UNIT + 1), Scalar::infinity());
    assert!(world.hit(&axis_ray(), beyond_near, &mut rec));
    assert_eq!(rec.t(), Scalar::from_int(2));
    let before = rec;
    let nothing = Interval::new(Scalar::zero(), Scalar::new(UNIT - 1));
    assert!(!world.hit(&axis_ray(), nothing, &mut rec));
    assert_eq!(rec, before);
}

#[test]
fn equal_distance_later_object_is_reported() {
    let front = Rc::new(Sphere::new(
        Vec3::new(Scalar::zero(), Scalar::zero(), Scalar::from_int(-3)),
        Scalar::from_int(1),
    ));
    let inside = Rc::new(Sphere::new(
        Vec3::new(Scalar::zero(), Scalar::zero(), Scalar::new(-UNIT / 2)),
        Scalar::new(3 * UNIT / 2),
    ));
    let mut world = HittableList::new();
    world.add(front.clone());
    world.add(inside.clone());
    let mut rec = HitRecord::new();
    assert!(world.hit(&axis_ray(), ahead(), &mut rec));
    assert_eq!(rec.t(), Scalar::from_int(2));
    assert!(!rec.front_face());

    let mut swapped = HittableList::new();
    swapped.add(inside);
    swapped.add(front);
    assert!(swapped.hit(&axis_ray(), ahead(), &mut rec));
    assert_eq!(rec.t(), Scalar::from_int(2));
    assert!(rec.front_face());
}

#[test]
fn scenes_nest() {
    let mut near_group = HittableList::new();
    near_group.add(at_depth(-2, 1));
    let mut far_group = HittableList::new();
    far_group.add(at_depth(-9, 2));
    far_group.add(at_depth(-6, 3));
    let mut world = HittableList::new();
    world.add(Rc::new(far_group));
    world.add(Rc::new(near_group));
    let mut rec = HitRecord::new();
    assert!(world.hit(&axis_ray(), ahead(), &mut rec));
    assert_eq!(rec.t(), Scalar::from_int(1));
}

#[test]
fn shared_sphere_serves_two_scenes() {
    let shared = at_depth(-2, 1);
    let mut first = HittableList::new();
    first.add(shared.clone());
    let mut second = HittableList::new();
    second.add(shared.clone());
    second.add(at_depth(-5, 1));
    let mut rec_first = HitRecord::new();
    let mut rec_second = HitRecord::new();
    assert!(first.hit(&axis_ray(), ahead(), &mut rec_first));
    assert!(second.hit(&axis_ray(), ahead(), &mut rec_second));
    assert_eq!(rec_first, rec_second);
    assert_eq!(Rc::strong_count(&shared), 3);
}
