use raytracing_rs::engine::camera::Camera;
use raytracing_rs::engine::color::{write_color, write_header, Color};
use raytracing_rs::engine::hittable_list::HittableList;
use raytracing_rs::engine::ray::Ray;
use raytracing_rs::engine::scalar::Scalar;
use raytracing_rs::engine::sphere::Sphere;
use raytracing_rs::engine::vec3::Vec3;
use std::rc::Rc;

const G: i64 = 1_000_000_000;

fn v3(x: i64, y: i64, z: i64) -> Vec3 {
    Vec3::new(Scalar::new(x), Scalar::new(y), Scalar::new(z))
}

fn camera(image_width: i32, aspect_ratio: Scalar, samples_per_pixel: i32) -> Camera {
    let mut cam = Camera::default();
    cam.image_width = image_width;
    cam.aspect_ratio = aspect_ratio;
    cam.samples_per_pixel = samples_per_pixel;
    cam
}

fn ready(image_width: i32, aspect_ratio: Scalar, samples_per_pixel: i32) -> Camera {
    let mut cam = camera(image_width, aspect_ratio, samples_per_pixel);
    assert!(cam.initialize());
    cam
}

fn empty_world() -> HittableList<Sphere> {
    HittableList::new()
}

fn ball_world() -> HittableList<Sphere> {
    let mut world = HittableList::new();
    world.add(Rc::new(Sphere::new(v3(0, 0, -G), Scalar::new(G / 2))));
    world
}

fn ball_on_ground() -> HittableList<Sphere> {
    let mut world = ball_world();
    world.add(Rc::new(Sphere::new(v3(0, -100_500_000_000, -G), Scalar::from_int(100))));
    world
}

fn centre() -> Vec<Vec3> {
    vec![Vec3::zero()]
}

fn as_text(bytes: Vec<u8>) -> String {
    String::from_utf8(bytes).unwrap()
}

#[test]
fn default_camera_casts_one_ray_per_pixel() {
    let cam = Camera::default();
    assert_eq!(cam.samples_per_pixel, 1);
    assert_eq!(cam.image_width, 0);
    assert_eq!(cam.aspect_ratio, Scalar::zero());
    assert_eq!(cam.image_height, 0);
    assert_eq!(cam.center, Vec3::zero());
    assert_eq!(cam.pixel00_loc, Vec3::zero());
    assert_eq!(cam.pixel_delta_u, Vec3::zero());
    assert_eq!(cam.pixel_delta_v, Vec3::zero());
}

#[test]
fn initialize_derives_the_viewport() {
    let cam = ready(2560, Scalar::from_int(16) / Scalar::from_int(9), 100);
    assert_eq!(cam.image_height, 1440);
    assert_eq!(cam.center, Vec3::zero());
    assert_eq!(cam.pixel_delta_u, v3(1_388_888, 0, 0));
    assert_eq!(cam.pixel_delta_v, v3(0, -1_388_888, 0));
    assert_eq!(cam.pixel00_loc, v3(-1_777_083_333, 999_305_556, -G));
    assert_eq!(cam.image_width, 2560);
    assert_eq!(cam.samples_per_pixel, 100);
    assert_eq!(cam.aspect_ratio, Scalar::new(1_777_777_777));
}

#[test]
fn initialize_is_idempotent() {
    let mut cam = ready(400, Scalar::from_int(16) / Scalar::from_int(9), 10);
    let first = cam;
    assert!(cam.initialize());
    assert_eq!(cam, first);
}

#[test]
fn initialize_follows_a_changed_configuration() {
    let mut cam = ready(2, Scalar::from_int(2), 1);
    assert_eq!(cam.image_height, 1);
    cam.image_width = 4;
    assert!(cam.initialize());
    assert_eq!(cam.image_height, 2);
    assert_eq!(cam.pixel_delta_u, v3(G, 0, 0));
    assert_eq!(cam.pixel_delta_v, v3(0, -G, 0));
    assert_eq!(cam.pixel00_loc, v3(-3 * G / 2, G / 2, -G));
}

#[test]
fn image_height_is_rounded_to_nearest() {
    assert_eq!(ready(3, Scalar::from_int(2), 1).image_height, 2);
    assert_eq!(ready(10, Scalar::from_int(3), 1).image_height, 3);
    assert_eq!(ready(11, Scalar::from_int(3), 1).image_height, 4);
    assert_eq!(ready(100, Scalar::one(), 1).image_height, 100);
}

#[test]
fn image_height_is_at_least_one() {
    assert_eq!(ready(1, Scalar::from_int(16), 1).image_height, 1);
    assert_eq!(ready(1, Scalar::infinity(), 1).image_height, 1);
}

#[test]
fn image_height_stays_within_the_integer_range() {
    assert_eq!(ready(i32::MAX, Scalar::new(1), 1).image_height, i32::MAX);
}

#[test]
fn viewport_width_follows_the_rounded_height() {
    let cam = ready(3, Scalar::from_int(2), 1);
    assert_eq!(cam.image_height, 2);
    assert_eq!(cam.pixel_delta_u, v3(G, 0, 0));
    assert_eq!(cam.pixel_delta_v, v3(0, -G, 0));
    assert_eq!(cam.pixel00_loc, v3(-G, G / 2, -G));
}

#[test]
fn unusable_configurations_are_refused() {
    for mut cam in [
        camera(0, Scalar::one(), 1),
        camera(-4, Scalar::one(), 1),
        camera(4, Scalar::zero(), 1),
        camera(4, Scalar::new(-1), 1),
        camera(4, Scalar::one(), 0),
        camera(4, Scalar::one(), -3),
        Camera::default(),
    ] {
        let before = cam;
        assert!(!cam.initialize());
        assert_eq!(cam, before);
        assert_eq!(cam.render(&empty_world()), None);
        assert_eq!(cam.render_with(&empty_world(), &centre()), None);
        assert_eq!(cam, before);
    }
}

#[test]
fn fixed_pattern_must_match_the_sample_count() {
    let mut cam = camera(2, Scalar::from_int(2), 2);
    let before = cam;
    assert_eq!(cam.render_with(&empty_world(), &centre()), None);
    assert_eq!(cam.render_with(&empty_world(), &Vec::new()), None);
    assert_eq!(cam, before);
    assert!(cam.render_with(&empty_world(), &vec![Vec3::zero(), Vec3::zero()]).is_some());
}

#[test]
fn rays_pass_through_pixel_centres() {
    let cam = ready(2560, Scalar::from_int(16) / Scalar::from_int(9), 100);
    assert_eq!(
        cam.get_ray_through(0, 0, Vec3::zero()),
        Ray::new(Vec3::zero(), v3(-1_777_083_333, 999_305_556, -G))
    );
    assert_eq!(
        cam.get_ray_through(1280, 720, Vec3::zero()),
        Ray::new(Vec3::zero(), v3(693_307, -693_804, -G))
    );
}

#[test]
fn offsets_move_rays_within_the_pixel() {
    let cam = ready(2560, Scalar::from_int(16) / Scalar::from_int(9), 100);
    assert_eq!(
        cam.get_ray_through(2559, 1439, v3(250_000_000, -500_000_000, 0)),
        Ray::new(Vec3::zero(), v3(1_777_428_281, -998_609_832, -G))
    );
}

#[test]
fn background_is_a_vertical_gradient() {
    let cam = ready(2, Scalar::from_int(2), 1);
    let world = empty_world();
    let level = Ray::new(Vec3::zero(), v3(-G, 0, -G));
    assert_eq!(cam.ray_color(&level, &world), v3(750_000_000, 850_000_000, G));
    let up = Ray::new(Vec3::zero(), v3(0, G, 0));
    assert_eq!(cam.ray_color(&up, &world), v3(500_000_000, 700_000_000, G));
    let down = Ray::new(Vec3::zero(), v3(0, -G, 0));
    assert_eq!(cam.ray_color(&down, &world), v3(G, G, G));
    let slanted = Ray::new(Vec3::zero(), v3(G, G, -G));
    assert_eq!(cam.ray_color(&slanted, &world), v3(605_662_433, 763_397_459, G));
}

#[test]
fn hit_colour_shows_the_normal() {
    let cam = ready(1, Scalar::one(), 1);
    let ahead = Ray::new(Vec3::zero(), v3(0, 0, -G));
    assert_eq!(cam.ray_color(&ahead, &ball_world()), v3(G / 2, G / 2, G));
}

#[test]
fn two_by_one_image_of_an_empty_scene() {
    let mut cam = camera(2, Scalar::from_int(2), 1);
    let out = cam.render_with(&empty_world(), &centre()).unwrap();
    assert_eq!(cam.image_height, 1);
    assert_eq!(as_text(out), "P3\n2 1\n255\n192 217 255\n192 217 255\n");

    let mut by_hand = Vec::new();
    write_header(&mut by_hand, 2, 1);
    for i in 0..2 {
        let ray = cam.get_ray_through(i, 0, Vec3::zero());
        let colour: Color = cam.ray_color(&ray, &empty_world());
        write_color(&mut by_hand, colour);
    }
    assert_eq!(as_text(by_hand), "P3\n2 1\n255\n192 217 255\n192 217 255\n");
}

#[test]
fn centre_pixel_shows_the_nearest_point_of_the_sphere() {
    let mut cam = camera(1, Scalar::one(), 1);
    let out = cam.render_with(&ball_world(), &centre()).unwrap();
    assert_eq!(as_text(out), "P3\n1 1\n255\n128 128 255\n");
    assert_eq!(cam.get_ray_through(0, 0, Vec3::zero()), Ray::new(Vec3::zero(), v3(0, 0, -G)));
}

#[test]
fn rows_run_top_to_bottom_and_pixels_left_to_right() {
    let mut cam = camera(4, Scalar::from_int(2), 1);
    let out = cam.render_with(&ball_on_ground(), &centre()).unwrap();
    assert_eq!(
        as_text(out),
        "P3\n4 2\n255\n174 207 255\n165 201 255\n165 201 255\n174 207 255\n\
         126 255 127\n127 255 127\n128 255 127\n129 255 127\n"
    );
}

#[test]
fn several_fixed_samples_are_averaged() {
    let offsets = vec![v3(0, 0, 0), v3(-G / 2, -G / 2, 0), v3(G / 4, G / 8, 0)];
    let mut cam = camera(4, Scalar::from_int(2), 3);
    let out = cam.render_with(&ball_on_ground(), &offsets).unwrap();
    assert_eq!(
        as_text(out),
        "P3\n4 2\n255\n172 206 255\n137 193 249\n162 199 255\n170 204 255\n\
         148 243 170\n149 243 170\n128 213 170\n150 243 170\n"
    );
    assert_eq!(
        cam.pixel_color(1, 0, &offsets, &ball_world()),
        v3(536_914_406, 755_481_976, 976_190_476)
    );
}

#[test]
fn equal_samples_average_to_the_single_sample() {
    let cam = ready(4, Scalar::from_int(2), 7);
    let offset = v3(G / 4, G / 8, 0);
    let single = cam.pixel_color(1, 0, &vec![offset], &ball_world());
    assert_eq!(single, v3(357_142_858, 714_285_714, 928_571_429));
    let ray = cam.get_ray_through(1, 0, offset);
    assert_eq!(cam.ray_color(&ray, &ball_world()), single);
    for n in [2usize, 3, 7, 100, 1000] {
        assert_eq!(cam.pixel_color(1, 0, &vec![offset; n], &ball_world()), single);
    }
}

#[test]
fn more_samples_leave_a_flat_image_unchanged() {
    let mut one = camera(2, Scalar::from_int(2), 1);
    let mut many = camera(2, Scalar::from_int(2), 9);
    let single = one.render_with(&empty_world(), &centre()).unwrap();
    let repeated = many.render_with(&empty_world(), &vec![Vec3::zero(); 9]).unwrap();
    assert_eq!(single, repeated);
}

#[test]
fn pixel_without_samples_is_black() {
    let cam = ready(2, Scalar::from_int(2), 1);
    assert_eq!(cam.pixel_color(0, 0, &Vec::new(), &empty_world()), Vec3::zero());
}

#[test]
fn random_render_has_the_shape_of_the_image() {
    let mut cam = camera(5, Scalar::from_int(2), 4);
    let out = as_text(cam.render(&ball_on_ground()).unwrap());
    assert_eq!(cam.image_height, 3);
    let lines: Vec<&str> = out.lines().collect();
    assert_eq!(lines.len(), 3 + 5 * 3);
    assert_eq!(&lines[..3], &["P3", "5 3", "255"]);
    assert!(out.ends_with('\n'));
    for line in &lines[3..] {
        let channels: Vec<u32> = line.split(' ').map(|c| c.parse().unwrap()).collect();
        assert_eq!(channels.len(), 3);
        assert!(channels.iter().all(|&c| c <= 255));
    }
}

#[test]
fn random_samples_of_the_centre_pixel_see_the_sphere() {
    let cam = ready(101, Scalar::one(), 4);
    assert_eq!(cam.image_height, 101);
    for _ in 0..50 {
        let colour = cam.sample_pixel(50, 50, &ball_world());
        assert!(480_000_000 <= colour.x().raw() && colour.x().raw() <= 520_000_000);
        assert!(480_000_000 <= colour.y().raw() && colour.y().raw() <= 520_000_000);
        assert!(990_000_000 <= colour.z().raw() && colour.z().raw() <= G);
    }
}

#[test]
fn random_row_appends_one_line_per_column() {
    let cam = ready(6, Scalar::from_int(2), 2);
    let mut out = b"head\n".to_vec();
    cam.render_row(1, &ball_on_ground(), &mut out);
    let text = as_text(out);
    assert!(text.starts_with("head\n"));
    assert_eq!(text.lines().count(), 1 + 6);
    assert!(text.ends_with('\n'));
}

#[test]
fn sample_square_is_half_a_pixel_round_the_centre() {
    let cam = ready(2, Scalar::from_int(2), 1);
    let mut distinct = false;
    let first = cam.sample_square();
    for _ in 0..200 {
        let offset = cam.sample_square();
        assert!(-G / 2 <= offset.x().raw() && offset.x().raw() < G / 2);
        assert!(-G / 2 <= offset.y().raw() && offset.y().raw() < G / 2);
        assert_eq!(offset.z(), Scalar::zero());
        distinct = distinct || offset != first;
    }
    assert!(distinct);
}

#[test]
fn random_rays_stay_within_their_pixel() {
    let cam = ready(2, Scalar::from_int(2), 1);
    for _ in 0..200 {
        let ray = cam.get_ray(1, 0);
        assert_eq!(ray.origin(), Vec3::zero());
        let d = ray.direction();
        assert!(0 <= d.x().raw() && d.x().raw() < 2 * G);
        assert!(-G < d.y().raw() && d.y().raw() <= G);
        assert_eq!(d.z(), Scalar::new(-G));
    }
}

#[test]
fn random_pixel_of_an_empty_scene_is_sky() {
    let cam = ready(2, Scalar::from_int(2), 5);
    for _ in 0..50 {
        let colour = cam.sample_pixel(0, 0, &empty_world());
        assert!(490_000_000 <= colour.x().raw() && colour.x().raw() <= G);
        assert!(690_000_000 <= colour.y().raw() && colour.y().raw() <= G);
        assert!(G - 10 <= colour.z().raw() && colour.z().raw() <= G);
    }
}
