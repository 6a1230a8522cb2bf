//! The pinhole camera: viewport geometry, rays through pixels, sample
//! accumulation and the scanline loop.

use crate::engine::color::{pixel_lines, ppm_header, write_color, write_header, Color};
use crate::engine::hittable::{HitRecord, Hittable};
use crate::engine::interval::Interval;
use crate::engine::ray::Ray;
use crate::engine::scalar::{Scalar, HALF, RAW_MAX, SCALE};
use crate::engine::utils::{random_0_to_1, INFINITY};
use crate::engine::vec3::{unit_vector, unit_vector_spec, Point3, Vec3};
use core::ops::Neg;
use vstd::prelude::*;

verus! {

/// A camera at the origin of space that looks down the negative z axis through a
/// viewport two units high at unit distance.
///
/// `aspect_ratio`, `image_width` and `samples_per_pixel` are the configuration;
/// the other fields are derived from it by [`Camera::initialize`].
#[derive(Clone, Copy, Debug, PartialEq, Eq, Structural)]
pub struct Camera {
    /// Image height in pixels.
    pub image_height: i32,
    /// The point all rays start from.
    pub center: Point3,
    /// The centre of the pixel in the upper left corner.
    pub pixel00_loc: Point3,
    /// From one pixel to its right neighbour.
    pub pixel_delta_u: Vec3,
    /// From one pixel to the one below.
    pub pixel_delta_v: Vec3,
    /// Image width over image height, as asked for.
    pub aspect_ratio: Scalar,
    /// Image width in pixels.
    pub image_width: i32,
    /// Number of rays cast through each pixel.
    pub samples_per_pixel: i32,
}

/// The vector with all components one: white, as a colour.
pub open spec fn ones() -> Vec3 {
    Vec3 { x: Scalar { raw: SCALE }, y: Scalar { raw: SCALE }, z: Scalar { raw: SCALE } }
}

/// The blue of the sky: `(0.5, 0.7, 1.0)`.
pub open spec fn sky_blue() -> Color {
    Vec3 { x: Scalar { raw: 500_000_000 }, y: Scalar { raw: 700_000_000 }, z: Scalar { raw: SCALE } }
}

/// The colour of the background behind a ray: white blended into sky blue by
/// the height of the ray's unit direction, `y` taken from `[-1, 1]` to `[0, 1]`.
pub open spec fn background(ray: Ray) -> Color {
    let a = Scalar { raw: HALF }.times(unit_vector_spec(ray.direction).y.plus(Scalar { raw: SCALE }));
    ones().scaled(Scalar { raw: SCALE }.minus(a)).plus(sky_blue().scaled(a))
}

/// The colour that shows a surface normal: `0.5 * (normal + (1, 1, 1))`.
pub open spec fn normal_color(normal: Vec3) -> Color {
    normal.plus(ones()).scaled(Scalar { raw: HALF })
}

/// The window in which intersections count: from zero to infinity.
pub open spec fn visible() -> Interval {
    Interval { min: Scalar { raw: 0 }, max: Scalar { raw: INFINITY } }
}

/// The colour seen along `ray`: that of the normal where the ray hits the
/// world, the background where it does not.
pub open spec fn ray_color_spec<H: Hittable>(ray: Ray, world: H) -> Color {
    match world.hit_spec(ray, visible()) {
        Some(rec) => normal_color(rec.normal),
        None => background(ray),
    }
}

/// `offset` lies in the square `[-0.5, 0.5)` by `[-0.5, 0.5)` of the plane `z = 0`.
pub open spec fn in_sample_square(offset: Vec3) -> bool {
    &&& -HALF <= offset.x.raw < HALF
    &&& -HALF <= offset.y.raw < HALF
    &&& offset.z.raw == 0
}

/// The sum of `colors`, added up from the first to the last.
pub open spec fn sum_colors(colors: Seq<Color>) -> Color
    decreases colors.len(),
{
    if colors.len() == 0 {
        Vec3::zero_spec()
    } else {
        sum_colors(colors.drop_last()).plus(colors.last())
    }
}

/// The sum of `colors` divided by their number.
pub open spec fn average_color(colors: Seq<Color>) -> Color {
    sum_colors(colors).over(Scalar::from_int_spec(colors.len() as int))
}

/// The lines that encode the rows of an image, top row first.
pub open spec fn image_lines(rows: Seq<Seq<Color>>) -> Seq<u8>
    decreases rows.len(),
{
    if rows.len() == 0 {
        Seq::empty()
    } else {
        image_lines(rows.drop_last()) + pixel_lines(rows.last())
    }
}

/// The offsets of a fixed sample pattern, or none where offsets are drawn at random.
pub open spec fn pattern_view(pattern: Option<&Vec<Vec3>>) -> Option<Seq<Vec3>> {
    match pattern {
        Some(offsets) => Some(offsets@),
        None => None,
    }
}

/// The sum of `n` copies of one colour is `n` times the colour, as long as that
/// is within range.
pub proof fn lemma_sum_of_equal_colors(c: Color, n: nat)
    requires
        -RAW_MAX <= n * c.x.raw <= RAW_MAX,
        -RAW_MAX <= n * c.y.raw <= RAW_MAX,
        -RAW_MAX <= n * c.z.raw <= RAW_MAX,
    ensures
        sum_colors(Seq::new(n, |k: int| c)).x.raw == n * c.x.raw,
        sum_colors(Seq::new(n, |k: int| c)).y.raw == n * c.y.raw,
        sum_colors(Seq::new(n, |k: int| c)).z.raw == n * c.z.raw,
    decreases n,
{
    if n > 0 {
        let m = (n - 1) as nat;
        assert(Seq::new(n, |k: int| c).drop_last() =~= Seq::new(m, |k: int| c));
        assert(-RAW_MAX <= m * c.x.raw <= RAW_MAX && n * c.x.raw == m * c.x.raw + c.x.raw)
            by (nonlinear_arith)
            requires
                m == n - 1,
                n > 0,
                -RAW_MAX <= n * c.x.raw <= RAW_MAX,
        ;
        assert(-RAW_MAX <= m * c.y.raw <= RAW_MAX && n * c.y.raw == m * c.y.raw + c.y.raw)
            by (nonlinear_arith)
            requires
                m == n - 1,
                n > 0,
                -RAW_MAX <= n * c.y.raw <= RAW_MAX,
        ;
        assert(-RAW_MAX <= m * c.z.raw <= RAW_MAX && n * c.z.raw == m * c.z.raw + c.z.raw)
            by (nonlinear_arith)
            requires
                m == n - 1,
                n > 0,
                -RAW_MAX <= n * c.z.raw <= RAW_MAX,
        ;
        lemma_sum_of_equal_colors(c, m);
        assert(Seq::new(n, |k: int| c).last() == c);
    } else {
        assert(0 * c.x.raw == 0 && 0 * c.y.raw == 0 && 0 * c.z.raw == 0) by (nonlinear_arith);
    }
}

/// Averaging copies of one colour gives that colour back, as long as their sum
/// is within range.
pub proof fn lemma_average_of_equal_colors(c: Color, n: nat)
    requires
        1 <= n <= i32::MAX,
        -RAW_MAX <= n * c.x.raw <= RAW_MAX,
        -RAW_MAX <= n * c.y.raw <= RAW_MAX,
        -RAW_MAX <= n * c.z.raw <= RAW_MAX,
    ensures
        average_color(Seq::new(n, |k: int| c)) == c,
{
    lemma_sum_of_equal_colors(c, n);
    let divisor = Scalar::from_int_spec(n as int);
    assert(divisor.raw == n * SCALE && divisor.raw > 0) by (nonlinear_arith)
        requires
            1 <= n <= i32::MAX,
            SCALE == 1_000_000_000,
            divisor == Scalar::from_int_spec(n as int),
    ;
    assert(c.in_range()) by (nonlinear_arith)
        requires
            1 <= n,
            -RAW_MAX <= n * c.x.raw,
            -RAW_MAX <= n * c.y.raw,
            -RAW_MAX <= n * c.z.raw,
    ;
    Scalar { raw: (n * c.x.raw) as i64 }.lemma_over_multiple(c.x, n);
    Scalar { raw: (n * c.y.raw) as i64 }.lemma_over_multiple(c.y, n);
    Scalar { raw: (n * c.z.raw) as i64 }.lemma_over_multiple(c.z, n);
}

impl Camera {
    /// The configuration can be rendered: at least one column, a positive aspect
    /// ratio and at least one sample per pixel.
    pub open spec fn valid_config(self) -> bool {
        self.image_width >= 1 && self.aspect_ratio.raw > 0 && self.samples_per_pixel >= 1
    }

    /// The image height for the configuration: the width divided by the aspect
    /// ratio, rounded to the nearest whole number (halves upwards), and no less
    /// than one.
    pub open spec fn image_height_spec(self) -> int {
        let rounded = (2 * self.image_width * SCALE + self.aspect_ratio.raw) / (2
            * self.aspect_ratio.raw);
        if rounded < 1 {
            1
        } else if rounded > i32::MAX {
            i32::MAX as int
        } else {
            rounded
        }
    }

    /// The camera with its derived fields computed from the configuration.
    ///
    /// The viewport is two units high; its width is that height times the ratio of
    /// the image's width to its height in pixels, which differs from the aspect
    /// ratio asked for once the height has been rounded.
    pub open spec fn initialized(self) -> Camera {
        let width = Scalar::from_int_spec(self.image_width as int);
        let height = Scalar::from_int_spec(self.image_height_spec());
        let two = Scalar { raw: 2_000_000_000 };
        let zero = Scalar { raw: 0 };
        let viewport_u = Vec3 { x: two.times(width.over(height)), y: zero, z: zero };
        let viewport_v = Vec3 { x: zero, y: two.negated(), z: zero };
        let pixel_delta_u = viewport_u.over(width);
        let pixel_delta_v = viewport_v.over(height);
        let viewport_upper_left = Vec3::zero_spec().minus(
            Vec3 { x: zero, y: zero, z: Scalar { raw: SCALE } },
        ).minus(viewport_u.over(two)).minus(viewport_v.over(two));
        Camera {
            image_height: self.image_height_spec() as i32,
            center: Vec3::zero_spec(),
            pixel00_loc: viewport_upper_left.plus(
                pixel_delta_u.plus(pixel_delta_v).scaled(Scalar { raw: HALF }),
            ),
            pixel_delta_u,
            pixel_delta_v,
            aspect_ratio: self.aspect_ratio,
            image_width: self.image_width,
            samples_per_pixel: self.samples_per_pixel,
        }
    }

    /// The ray from the camera's centre through pixel `(i, j)`, displaced within
    /// the pixel by `offset`.
    pub open spec fn ray_spec(self, i: int, j: int, offset: Vec3) -> Ray {
        let pixel_sample = self.pixel00_loc.plus(
            self.pixel_delta_u.scaled(Scalar::from_int_spec(i).plus(offset.x)),
        ).plus(self.pixel_delta_v.scaled(Scalar::from_int_spec(j).plus(offset.y)));
        Ray { origin: self.center, direction: pixel_sample.minus(self.center) }
    }

    /// The colours seen through pixel `(i, j)` at each of `offsets`.
    pub open spec fn sample_colors<H: Hittable>(
        self,
        i: int,
        j: int,
        offsets: Seq<Vec3>,
        world: H,
    ) -> Seq<Color> {
        Seq::new(offsets.len(), |k: int| ray_color_spec(self.ray_spec(i, j, offsets[k]), world))
    }

    /// The colour of pixel `(i, j)` sampled at `offsets`: the average of the
    /// colours seen there.
    pub open spec fn pixel_color_spec<H: Hittable>(
        self,
        i: int,
        j: int,
        offsets: Seq<Vec3>,
        world: H,
    ) -> Color {
        average_color(self.sample_colors(i, j, offsets, world))
    }

    /// The number of samples cast through each pixel.
    pub open spec fn sample_count(self) -> nat {
        if self.samples_per_pixel < 0 {
            0
        } else {
            self.samples_per_pixel as nat
        }
    }

    /// `offsets` holds one offset for each sample of a pixel, each in the sample square.
    pub open spec fn is_sample_pattern(self, offsets: Seq<Vec3>) -> bool {
        &&& offsets.len() == self.sample_count()
        &&& forall|k: int| 0 <= k < offsets.len() ==> in_sample_square(#[trigger] offsets[k])
    }

    /// `c` is a colour of pixel `(i, j)`: the one sampled at the fixed pattern
    /// where there is one, else one sampled at some pattern of the sample square.
    pub open spec fn is_pixel_color<H: Hittable>(
        self,
        world: H,
        pattern: Option<Seq<Vec3>>,
        i: int,
        j: int,
        c: Color,
    ) -> bool {
        match pattern {
            Some(offsets) => c == self.pixel_color_spec(i, j, offsets, world),
            None => exists|offsets: Seq<Vec3>| #[trigger]
                self.is_sample_pattern(offsets) && c == self.pixel_color_spec(
                    i,
                    j,
                    offsets,
                    world,
                ),
        }
    }

    /// `row` holds a colour for each pixel of scanline `j`, left to right.
    pub open spec fn is_row<H: Hittable>(
        self,
        world: H,
        pattern: Option<Seq<Vec3>>,
        j: int,
        row: Seq<Color>,
    ) -> bool {
        &&& row.len() == (if self.image_width < 0 {
            0
        } else {
            self.image_width as int
        })
        &&& forall|i: int|
            0 <= i < row.len() ==> self.is_pixel_color(world, pattern, i, j, #[trigger] row[i])
    }

    /// `rows` holds a row for each scanline of the image, top to bottom.
    pub open spec fn is_image<H: Hittable>(
        self,
        world: H,
        pattern: Option<Seq<Vec3>>,
        rows: Seq<Seq<Color>>,
    ) -> bool {
        &&& rows.len() == (if self.image_height < 0 {
            0
        } else {
            self.image_height as int
        })
        &&& forall|j: int|
            0 <= j < rows.len() ==> self.is_row(world, pattern, j, #[trigger] rows[j])
    }

    /// The image that the fixed pattern `offsets` gives: every pixel sampled at
    /// the same offsets.
    pub open spec fn image_spec<H: Hittable>(self, world: H, offsets: Seq<Vec3>) -> Seq<
        Seq<Color>,
    > {
        Seq::new(
            self.image_height as nat,
            |j: int|
                Seq::new(
                    self.image_width as nat,
                    |i: int| self.pixel_color_spec(i, j, offsets, world),
                ),
        )
    }

    /// Initializing an initialized camera changes nothing.
    pub proof fn lemma_initialized_is_idempotent(self)
        ensures
            self.initialized().initialized() == self.initialized(),
            self.initialized().valid_config() == self.valid_config(),
    {
    }

    /// Where every sample of a pixel is taken at the same offset, the pixel has
    /// the colour of a single sample, as long as the sum of the samples is within range.
    pub proof fn lemma_equal_samples_average_to_one<H: Hittable>(
        self,
        i: int,
        j: int,
        offset: Vec3,
        n: nat,
        world: H,
    )
        requires
            1 <= n <= i32::MAX,
            ({
                let c = ray_color_spec(self.ray_spec(i, j, offset), world);
                &&& -RAW_MAX <= n * c.x.raw <= RAW_MAX
                &&& -RAW_MAX <= n * c.y.raw <= RAW_MAX
                &&& -RAW_MAX <= n * c.z.raw <= RAW_MAX
            }),
        ensures
            self.pixel_color_spec(i, j, Seq::new(n, |k: int| offset), world) == ray_color_spec(
                self.ray_spec(i, j, offset),
                world,
            ),
    {
        let c = ray_color_spec(self.ray_spec(i, j, offset), world);
        assert(self.sample_colors(i, j, Seq::new(n, |k: int| offset), world) =~= Seq::new(
            n,
            |k: int| c,
        ));
        lemma_average_of_equal_colors(c, n);
    }

    /// Derives the viewport geometry from the configuration. Returns whether the
    /// configuration can be rendered; if it cannot, the camera is left as it was.
    pub fn initialize(&mut self) -> (ok: bool)
        ensures
            ok == old(self).valid_config(),
            ok ==> *final(self) == old(self).initialized(),
            !ok ==> *final(self) == *old(self),
    {
        if self.image_width < 1 || self.aspect_ratio.raw <= 0 || self.samples_per_pixel < 1 {
            return false;
        }
        let ratio: i128 = self.aspect_ratio.raw as i128;
        assert(2 * self.image_width * SCALE == self.image_width * 2_000_000_000) by (nonlinear_arith)
            requires
                SCALE == 1_000_000_000,
        ;
        let rounded: i128 = ((self.image_width as i128) * 2_000_000_000 + ratio) / (2 * ratio);
        self.image_height = if rounded < 1 {
            1
        } else if rounded > i32::MAX as i128 {
            i32::MAX
        } else {
            rounded as i32
        };
        self.center = Vec3::zero();

        let width: Scalar = Scalar::from_int(self.image_width as i64);
        let height: Scalar = Scalar::from_int(self.image_height as i64);
        let focal_length: Scalar = Scalar::one();
        let viewport_height: Scalar = Scalar::new(2_000_000_000);
        let viewport_width: Scalar = viewport_height * (width / height);

        let viewport_u: Vec3 = Vec3::new(viewport_width, Scalar::zero(), Scalar::zero());
        let viewport_v: Vec3 = Vec3::new(Scalar::zero(), viewport_height.neg(), Scalar::zero());

        self.pixel_delta_u = viewport_u / width;
        self.pixel_delta_v = viewport_v / height;

        let two: Scalar = Scalar::new(2_000_000_000);
        let viewport_upper_left: Vec3 = self.center - Vec3::new(
            Scalar::zero(),
            Scalar::zero(),
            focal_length,
        ) - viewport_u / two - viewport_v / two;
        self.pixel00_loc = viewport_upper_left + Scalar::new(HALF) * (self.pixel_delta_u
            + self.pixel_delta_v);
        true
    }

    /// The colour seen along `ray` into `world`.
    pub fn ray_color<H: Hittable>(&self, ray: &Ray, world: &H) -> (c: Color)
        ensures
            c == ray_color_spec(*ray, *world),
    {
        let mut rec: HitRecord = HitRecord::new();
        if world.hit(ray, Interval::new(Scalar::zero(), Scalar::new(INFINITY)), &mut rec) {
            return Scalar::new(HALF) * (rec.normal + Vec3::new(
                Scalar::one(),
                Scalar::one(),
                Scalar::one(),
            ));
        }
        let unit_direction: Vec3 = unit_vector(ray.direction);
        let a: Scalar = Scalar::new(HALF) * (unit_direction.y + Scalar::one());
        (Scalar::one() - a) * Vec3::new(Scalar::one(), Scalar::one(), Scalar::one()) + a
            * Vec3::new(Scalar::new(500_000_000), Scalar::new(700_000_000), Scalar::one())
    }

    /// The ray from the camera's centre through pixel `(i, j)`, displaced within
    /// the pixel by `offset`.
    pub fn get_ray_through(&self, i: i32, j: i32, offset: Vec3) -> (r: Ray)
        ensures
            r == self.ray_spec(i as int, j as int, offset),
    {
        let pixel_sample: Vec3 = self.pixel00_loc + ((Scalar::from_int(i as i64) + offset.x)
            * self.pixel_delta_u) + ((Scalar::from_int(j as i64) + offset.y)
            * self.pixel_delta_v);
        let ray_origin: Point3 = self.center;
        let ray_direction: Vec3 = pixel_sample - ray_origin;
        Ray::new(ray_origin, ray_direction)
    }

    /// A random point of the square of half a pixel round the origin.
    pub fn sample_square(&self) -> (offset: Vec3)
        ensures
            in_sample_square(offset),
    {
        Vec3::new(
            random_0_to_1() - Scalar::new(HALF),
            random_0_to_1() - Scalar::new(HALF),
            Scalar::zero(),
        )
    }

    /// A ray from the camera's centre through a random point of pixel `(i, j)`.
    pub fn get_ray(&self, i: i32, j: i32) -> (r: Ray)
        ensures
            exists|offset: Vec3| in_sample_square(offset) && r == self.ray_spec(
                i as int,
                j as int,
                offset,
            ),
    {
        let offset: Vec3 = self.sample_square();
        self.get_ray_through(i, j, offset)
    }
}

/// The whole number `n` as a scalar.
fn scalar_of_len(n: usize) -> (r: Scalar)
    ensures
        r == Scalar::from_int_spec(n as int),
{
    let wide: u64 = n as u64;
    if wide > 9_223_372_036u64 {
        assert(n * SCALE > RAW_MAX) by (nonlinear_arith)
            requires
                n > 9_223_372_036,
                SCALE == 1_000_000_000,
                RAW_MAX == 0x7fff_ffff_ffff_ffff,
        ;
        Scalar::infinity()
    } else {
        Scalar::from_int(wide as i64)
    }
}

impl Camera {
    /// The colour of pixel `(i, j)` sampled at `offsets`: the average of the
    /// colours seen through the pixel at each of them.
    pub fn pixel_color<H: Hittable>(&self, i: i32, j: i32, offsets: &Vec<Vec3>, world: &H) -> (c:
        Color)
        ensures
            c == self.pixel_color_spec(i as int, j as int, offsets@, *world),
    {
        let mut sum: Color = Vec3::zero();
        let mut k: usize = 0;
        while k < offsets.len()
            invariant
                k <= offsets@.len(),
                sum == sum_colors(
                    self.sample_colors(i as int, j as int, offsets@.take(k as int), *world),
                ),
            decreases offsets@.len() - k,
        {
            let r: Ray = self.get_ray_through(i, j, offsets[k]);
            let seen: Color = self.ray_color(&r, world);
            proof {
                let before = self.sample_colors(
                    i as int,
                    j as int,
                    offsets@.take(k as int),
                    *world,
                );
                let after = self.sample_colors(
                    i as int,
                    j as int,
                    offsets@.take(k + 1),
                    *world,
                );
                assert(after.drop_last() =~= before);
                assert(after.last() == seen);
            }
            sum = sum + seen;
            k += 1;
        }
        assert(offsets@.take(offsets@.len() as int) =~= offsets@);
        sum / scalar_of_len(offsets.len())
    }

    /// The colour of pixel `(i, j)` sampled at random: the average of the colours
    /// seen along `samples_per_pixel` rays through random points of the pixel.
    pub fn sample_pixel<H: Hittable>(&self, i: i32, j: i32, world: &H) -> (c: Color)
        ensures
            self.is_pixel_color(*world, None, i as int, j as int, c),
    {
        let n: i32 = if self.samples_per_pixel < 0 {
            0
        } else {
            self.samples_per_pixel
        };
        let mut sum: Color = Vec3::zero();
        let ghost mut offsets: Seq<Vec3> = Seq::empty();
        let mut k: i32 = 0;
        while k < n
            invariant
                0 <= k <= n,
                offsets.len() == k,
                forall|m: int| 0 <= m < offsets.len() ==> in_sample_square(#[trigger] offsets[m]),
                sum == sum_colors(self.sample_colors(i as int, j as int, offsets, *world)),
            decreases n - k,
        {
            let r: Ray = self.get_ray(i, j);
            let seen: Color = self.ray_color(&r, world);
            proof {
                let offset = choose|offset: Vec3|
                    in_sample_square(offset) && r == self.ray_spec(i as int, j as int, offset);
                let before = self.sample_colors(i as int, j as int, offsets, *world);
                let after = self.sample_colors(i as int, j as int, offsets.push(offset), *world);
                assert(after.drop_last() =~= before);
                assert(after.last() == seen);
                offsets = offsets.push(offset);
            }
            sum = sum + seen;
            k += 1;
        }
        assert(self.is_sample_pattern(offsets));
        sum / Scalar::from_int(n as i64)
    }

    /// The colour of pixel `(i, j)`: sampled at `pattern` where there is one, at
    /// random where there is none.
    fn render_pixel<H: Hittable>(
        &self,
        i: i32,
        j: i32,
        world: &H,
        pattern: Option<&Vec<Vec3>>,
    ) -> (c: Color)
        ensures
            self.is_pixel_color(*world, pattern_view(pattern), i as int, j as int, c),
    {
        match pattern {
            Some(offsets) => self.pixel_color(i, j, offsets, world),
            None => self.sample_pixel(i, j, world),
        }
    }

    /// Appends the lines of scanline `j` to `writer` and hands back the colours
    /// they encode.
    fn row_into<H: Hittable>(
        &self,
        j: i32,
        world: &H,
        pattern: Option<&Vec<Vec3>>,
        writer: &mut Vec<u8>,
    ) -> (row: Ghost<Seq<Color>>)
        ensures
            self.is_row(*world, pattern_view(pattern), j as int, row@),
            final(writer)@ == old(writer)@ + pixel_lines(row@),
    {
        let ghost mut row: Seq<Color> = Seq::empty();
        let mut i: i32 = 0;
        while i < self.image_width
            invariant
                0 <= i,
                self.image_width < 0 ==> i == 0,
                self.image_width >= 0 ==> i <= self.image_width,
                row.len() == i,
                forall|m: int|
                    0 <= m < row.len() ==> self.is_pixel_color(
                        *world,
                        pattern_view(pattern),
                        m,
                        j as int,
                        #[trigger] row[m],
                    ),
                writer@ == old(writer)@ + pixel_lines(row),
            decreases self.image_width - i,
        {
            let pixel: Color = self.render_pixel(i, j, world, pattern);
            write_color(writer, pixel);
            proof {
                assert(row.push(pixel).drop_last() =~= row);
                assert(writer@ =~= old(writer)@ + pixel_lines(row.push(pixel)));
                row = row.push(pixel);
            }
            i += 1;
        }
        Ghost(row)
    }

    /// Appends the lines of every scanline to `writer`, top to bottom, and hands
    /// back the colours they encode.
    fn image_into<H: Hittable>(
        &self,
        world: &H,
        pattern: Option<&Vec<Vec3>>,
        writer: &mut Vec<u8>,
    ) -> (rows: Ghost<Seq<Seq<Color>>>)
        ensures
            self.is_image(*world, pattern_view(pattern), rows@),
            final(writer)@ == old(writer)@ + image_lines(rows@),
    {
        let ghost mut rows: Seq<Seq<Color>> = Seq::empty();
        let mut j: i32 = 0;
        while j < self.image_height
            invariant
                0 <= j,
                self.image_height < 0 ==> j == 0,
                self.image_height >= 0 ==> j <= self.image_height,
                rows.len() == j,
                forall|m: int|
                    0 <= m < rows.len() ==> self.is_row(
                        *world,
                        pattern_view(pattern),
                        m,
                        #[trigger] rows[m],
                    ),
                writer@ == old(writer)@ + image_lines(rows),
            decreases self.image_height - j,
        {
            let row: Ghost<Seq<Color>> = self.row_into(j, world, pattern, writer);
            proof {
                assert(rows.push(row@).drop_last() =~= rows);
                assert(writer@ =~= old(writer)@ + image_lines(rows.push(row@)));
                rows = rows.push(row@);
            }
            j += 1;
        }
        Ghost(rows)
    }

    /// Appends to `writer` the lines of scanline `j`, each pixel sampled at random.
    pub fn render_row<H: Hittable>(&self, j: i32, world: &H, writer: &mut Vec<u8>)
        ensures
            exists|row: Seq<Color>|
                self.is_row(*world, None, j as int, row) && final(writer)@ == old(writer)@
                    + pixel_lines(row),
    {
        let row: Ghost<Seq<Color>> = self.row_into(j, world, None, writer);
    }

    /// Initializes the camera and renders `world`, each pixel sampled at random.
    ///
    /// Returns the image as a plain-text pixel stream: the header, then one line
    /// for each pixel, scanlines top to bottom and pixels left to right. Returns
    /// nothing, and leaves the camera as it was, where the configuration cannot
    /// be rendered.
    pub fn render<H: Hittable>(&mut self, world: &H) -> (out: Option<Vec<u8>>)
        ensures
            out.is_some() == old(self).valid_config(),
            *final(self) == (if old(self).valid_config() {
                old(self).initialized()
            } else {
                *old(self)
            }),
            out matches Some(bytes) ==> exists|rows: Seq<Seq<Color>>|
                final(self).is_image(*world, None, rows) && bytes@ == ppm_header(
                    final(self).image_width as nat,
                    final(self).image_height as nat,
                ) + image_lines(rows),
    {
        if !self.initialize() {
            return None;
        }
        let mut bytes: Vec<u8> = Vec::new();
        write_header(&mut bytes, self.image_width as u32, self.image_height as u32);
        let rows: Ghost<Seq<Seq<Color>>> = self.image_into(world, None, &mut bytes);
        Some(bytes)
    }

    /// Initializes the camera and renders `world`, every pixel sampled at the
    /// same `offsets`.
    ///
    /// Returns nothing, and leaves the camera as it was, where the configuration
    /// cannot be rendered or the number of offsets is not `samples_per_pixel`.
    pub fn render_with<H: Hittable>(&mut self, world: &H, offsets: &Vec<Vec3>) -> (out: Option<
        Vec<u8>,
    >)
        ensures
            out.is_some() == (old(self).valid_config() && offsets@.len()
                == old(self).samples_per_pixel),
            *final(self) == (if out.is_some() {
                old(self).initialized()
            } else {
                *old(self)
            }),
            out matches Some(bytes) ==> bytes@ == ppm_header(
                final(self).image_width as nat,
                final(self).image_height as nat,
            ) + image_lines(final(self).image_spec(*world, offsets@)),
    {
        if self.samples_per_pixel < 1 || offsets.len() != self.samples_per_pixel as usize {
            return None;
        }
        if !self.initialize() {
            return None;
        }
        let mut bytes: Vec<u8> = Vec::new();
        write_header(&mut bytes, self.image_width as u32, self.image_height as u32);
        let rows: Ghost<Seq<Seq<Color>>> = self.image_into(world, Some(offsets), &mut bytes);
        proof {
            let image = self.image_spec(*world, offsets@);
            assert(rows@.len() == image.len());
            assert forall|j: int| 0 <= j < rows@.len() implies rows@[j] =~= image[j] by {
                assert(self.is_row(*world, Some(offsets@), j, rows@[j]));
            }
            assert(rows@ =~= image);
        }
        Some(bytes)
    }
}

impl Default for Camera {
    /// A camera without geometry that casts one ray per pixel; width and aspect
    /// ratio are zero and have to be set before rendering.
    fn default() -> (r: Camera)
        ensures
            r == (Camera {
                image_height: 0,
                center: Vec3::zero_spec(),
                pixel00_loc: Vec3::zero_spec(),
                pixel_delta_u: Vec3::zero_spec(),
                pixel_delta_v: Vec3::zero_spec(),
                aspect_ratio: Scalar { raw: 0 },
                image_width: 0,
                samples_per_pixel: 1,
            }),
    {
        Camera {
            image_height: 0,
            center: Vec3::zero(),
            pixel00_loc: Vec3::zero(),
            pixel_delta_u: Vec3::zero(),
            pixel_delta_v: Vec3::zero(),
            aspect_ratio: Scalar::zero(),
            image_width: 0,
            samples_per_pixel: 1,
        }
    }
}

} // verus!
