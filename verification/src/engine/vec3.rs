//! Three-component vectors of scalars, used for positions, directions and colours.

use crate::engine::scalar::{Scalar, SCALE};
use crate::engine::utils::{random_0_to_1, random_min_to_max};
use core::ops::Neg;
use vstd::prelude::*;

verus! {

/// A vector with three scalar components.
#[derive(Clone, Copy, Debug, PartialEq, Eq, Structural)]
pub struct Vec3 {
    pub x: Scalar,
    pub y: Scalar,
    pub z: Scalar,
}

/// A position in space.
pub type Point3 = Vec3;

/// The dot product: the three products are formed first and then summed left to right.
pub open spec fn dot_spec(u: Vec3, v: Vec3) -> Scalar {
    u.x.times(v.x).plus(u.y.times(v.y)).plus(u.z.times(v.z))
}

/// The cross product.
pub open spec fn cross_spec(u: Vec3, v: Vec3) -> Vec3 {
    Vec3 {
        x: u.y.times(v.z).minus(u.z.times(v.y)),
        y: u.z.times(v.x).minus(u.x.times(v.z)),
        z: u.x.times(v.y).minus(u.y.times(v.x)),
    }
}

/// The vector divided by its own length.
pub open spec fn unit_vector_spec(v: Vec3) -> Vec3 {
    v.over(v.length_spec())
}

impl Vec3 {
    /// The vector with the given components.
    pub fn new(x: Scalar, y: Scalar, z: Scalar) -> (r: Vec3)
        ensures
            r == (Vec3 { x, y, z }),
    {
        Vec3 { x, y, z }
    }

    /// The zero vector.
    pub open spec fn zero_spec() -> Vec3 {
        Vec3 { x: Scalar { raw: 0 }, y: Scalar { raw: 0 }, z: Scalar { raw: 0 } }
    }

    /// The zero vector.
    pub fn zero() -> (r: Vec3)
        ensures
            r == Vec3::zero_spec(),
    {
        Vec3 { x: Scalar::zero(), y: Scalar::zero(), z: Scalar::zero() }
    }

    /// The first component.
    pub fn x(&self) -> (r: Scalar)
        ensures
            r == self.x,
    {
        self.x
    }

    /// The second component.
    pub fn y(&self) -> (r: Scalar)
        ensures
            r == self.y,
    {
        self.y
    }

    /// The third component.
    pub fn z(&self) -> (r: Scalar)
        ensures
            r == self.z,
    {
        self.z
    }

    /// Replaces the first component.
    pub fn set_x(&mut self, x: Scalar)
        ensures
            *final(self) == (Vec3 { x, y: old(self).y, z: old(self).z }),
    {
        self.x = x;
    }

    /// Replaces the second component.
    pub fn set_y(&mut self, y: Scalar)
        ensures
            *final(self) == (Vec3 { x: old(self).x, y, z: old(self).z }),
    {
        self.y = y;
    }

    /// Replaces the third component.
    pub fn set_z(&mut self, z: Scalar)
        ensures
            *final(self) == (Vec3 { x: old(self).x, y: old(self).y, z }),
    {
        self.z = z;
    }

    /// The component at `index`: 0 for `x`, 1 for `y`, anything else for `z`.
    pub open spec fn component(self, index: int) -> Scalar {
        if index == 0 {
            self.x
        } else if index == 1 {
            self.y
        } else {
            self.z
        }
    }

    /// Every component lies in `[min, max)`.
    pub open spec fn within(self, min: Scalar, max: Scalar) -> bool {
        &&& min.raw <= self.x.raw < max.raw
        &&& min.raw <= self.y.raw < max.raw
        &&& min.raw <= self.z.raw < max.raw
    }

    /// A vector with each component drawn at random from `[0, 1)`.
    pub fn random() -> (r: Vec3)
        ensures
            r.within(Scalar { raw: 0 }, Scalar { raw: SCALE }),
    {
        Vec3 { x: random_0_to_1(), y: random_0_to_1(), z: random_0_to_1() }
    }

    /// A vector with each component drawn at random from `[min, max)`.
    pub fn random_in_range(min: Scalar, max: Scalar) -> (r: Vec3)
        requires
            min.raw < max.raw,
        ensures
            r.within(min, max),
    {
        Vec3 {
            x: random_min_to_max(min, max),
            y: random_min_to_max(min, max),
            z: random_min_to_max(min, max),
        }
    }

    /// The componentwise sum.
    pub open spec fn plus(self, rhs: Vec3) -> Vec3 {
        Vec3 { x: self.x.plus(rhs.x), y: self.y.plus(rhs.y), z: self.z.plus(rhs.z) }
    }

    /// The componentwise difference.
    pub open spec fn minus(self, rhs: Vec3) -> Vec3 {
        Vec3 { x: self.x.minus(rhs.x), y: self.y.minus(rhs.y), z: self.z.minus(rhs.z) }
    }

    /// The componentwise negation.
    pub open spec fn negated(self) -> Vec3 {
        Vec3 { x: self.x.negated(), y: self.y.negated(), z: self.z.negated() }
    }

    /// The componentwise product.
    pub open spec fn times(self, rhs: Vec3) -> Vec3 {
        Vec3 { x: self.x.times(rhs.x), y: self.y.times(rhs.y), z: self.z.times(rhs.z) }
    }

    /// The vector scaled by `k`.
    pub open spec fn scaled(self, k: Scalar) -> Vec3 {
        Vec3 { x: self.x.times(k), y: self.y.times(k), z: self.z.times(k) }
    }

    /// Each component divided by `k`.
    pub open spec fn over(self, k: Scalar) -> Vec3 {
        Vec3 { x: self.x.over(k), y: self.y.over(k), z: self.z.over(k) }
    }

    /// The squared length: the dot product of the vector with itself.
    pub open spec fn length_squared_spec(self) -> Scalar {
        dot_spec(self, self)
    }

    /// The length: the square root of the squared length.
    pub open spec fn length_spec(self) -> Scalar {
        self.length_squared_spec().sqrt_spec()
    }

    /// Every component lies in the range that arithmetic produces.
    pub open spec fn in_range(self) -> bool {
        self.x.in_range() && self.y.in_range() && self.z.in_range()
    }

    /// A squared length is not negative.
    pub proof fn lemma_length_squared_nonnegative(self)
        ensures
            self.length_squared_spec().raw >= 0,
    {
        self.x.lemma_square_nonnegative();
        self.y.lemma_square_nonnegative();
        self.z.lemma_square_nonnegative();
    }

    /// The squared length of the vector.
    pub fn length_squared(&self) -> (r: Scalar)
        ensures
            r == self.length_squared_spec(),
    {
        self.x * self.x + self.y * self.y + self.z * self.z
    }

    /// The length of the vector.
    pub fn length(&self) -> (r: Scalar)
        ensures
            r == self.length_spec(),
    {
        self.length_squared().sqrt()
    }
}

impl core::ops::Neg for Vec3 {
    type Output = Vec3;

    /// Componentwise negation.
    fn neg(self) -> (r: Vec3)
        ensures
            r == self.negated(),
    {
        Vec3 { x: self.x.neg(), y: self.y.neg(), z: self.z.neg() }
    }
}

impl vstd::std_specs::ops::NegSpecImpl for Vec3 {
    open spec fn obeys_neg_spec() -> bool {
        true
    }

    open spec fn neg_req(self) -> bool {
        true
    }

    open spec fn neg_spec(self) -> Vec3 {
        self.negated()
    }
}

impl core::ops::Add for Vec3 {
    type Output = Vec3;

    /// Componentwise sum.
    fn add(self, rhs: Vec3) -> (r: Vec3)
        ensures
            r == self.plus(rhs),
    {
        Vec3 { x: self.x + rhs.x, y: self.y + rhs.y, z: self.z + rhs.z }
    }
}

impl vstd::std_specs::ops::AddSpecImpl for Vec3 {
    open spec fn obeys_add_spec() -> bool {
        true
    }

    open spec fn add_req(self, rhs: Vec3) -> bool {
        true
    }

    open spec fn add_spec(self, rhs: Vec3) -> Vec3 {
        self.plus(rhs)
    }
}

impl core::ops::Sub for Vec3 {
    type Output = Vec3;

    /// Componentwise difference.
    fn sub(self, rhs: Vec3) -> (r: Vec3)
        ensures
            r == self.minus(rhs),
    {
        Vec3 { x: self.x - rhs.x, y: self.y - rhs.y, z: self.z - rhs.z }
    }
}

impl vstd::std_specs::ops::SubSpecImpl for Vec3 {
    open spec fn obeys_sub_spec() -> bool {
        true
    }

    open spec fn sub_req(self, rhs: Vec3) -> bool {
        true
    }

    open spec fn sub_spec(self, rhs: Vec3) -> Vec3 {
        self.minus(rhs)
    }
}

impl core::ops::Mul for Vec3 {
    type Output = Vec3;

    /// Componentwise product.
    fn mul(self, rhs: Vec3) -> (r: Vec3)
        ensures
            r == self.times(rhs),
    {
        Vec3 { x: self.x * rhs.x, y: self.y * rhs.y, z: self.z * rhs.z }
    }
}

impl vstd::std_specs::ops::MulSpecImpl for Vec3 {
    open spec fn obeys_mul_spec() -> bool {
        true
    }

    open spec fn mul_req(self, rhs: Vec3) -> bool {
        true
    }

    open spec fn mul_spec(self, rhs: Vec3) -> Vec3 {
        self.times(rhs)
    }
}

impl core::ops::Mul<Scalar> for Vec3 {
    type Output = Vec3;

    /// The vector scaled by a scalar.
    fn mul(self, scalar: Scalar) -> (r: Vec3)
        ensures
            r == self.scaled(scalar),
    {
        Vec3 { x: self.x * scalar, y: self.y * scalar, z: self.z * scalar }
    }
}

impl vstd::std_specs::ops::MulSpecImpl<Scalar> for Vec3 {
    open spec fn obeys_mul_spec() -> bool {
        true
    }

    open spec fn mul_req(self, scalar: Scalar) -> bool {
        true
    }

    open spec fn mul_spec(self, scalar: Scalar) -> Vec3 {
        self.scaled(scalar)
    }
}

impl core::ops::Mul<Vec3> for Scalar {
    type Output = Vec3;

    /// The vector scaled by a scalar, written with the scalar first.
    fn mul(self, v: Vec3) -> (r: Vec3)
        ensures
            r == v.scaled(self),
    {
        v * self
    }
}

impl vstd::std_specs::ops::MulSpecImpl<Vec3> for Scalar {
    open spec fn obeys_mul_spec() -> bool {
        true
    }

    open spec fn mul_req(self, v: Vec3) -> bool {
        true
    }

    open spec fn mul_spec(self, v: Vec3) -> Vec3 {
        v.scaled(self)
    }
}

impl core::ops::Div<Scalar> for Vec3 {
    type Output = Vec3;

    /// Each component divided by a scalar.
    fn div(self, rhs: Scalar) -> (r: Vec3)
        ensures
            r == self.over(rhs),
    {
        Vec3 { x: self.x / rhs, y: self.y / rhs, z: self.z / rhs }
    }
}

impl vstd::std_specs::ops::DivSpecImpl<Scalar> for Vec3 {
    open spec fn obeys_div_spec() -> bool {
        true
    }

    open spec fn div_req(self, rhs: Scalar) -> bool {
        true
    }

    open spec fn div_spec(self, rhs: Scalar) -> Vec3 {
        self.over(rhs)
    }
}

impl core::ops::Index<usize> for Vec3 {
    type Output = Scalar;

    /// The component at `index`: 0 for `x`, 1 for `y`, 2 for `z`.
    fn index(&self, index: usize) -> (r: &Scalar)
        ensures
            *r == self.component(index as int),
    {
        if index == 0 {
            &self.x
        } else if index == 1 {
            &self.y
        } else {
            &self.z
        }
    }
}

impl vstd::std_specs::core::IndexSpecImpl<usize> for Vec3 {
    open spec fn index_req(&self, index: &usize) -> bool {
        *index < 3
    }
}

impl core::ops::AddAssign for Vec3 {
    /// Adds `rhs` to the vector, component by component.
    fn add_assign(&mut self, rhs: Vec3)
        ensures
            *final(self) == old(self).plus(rhs),
    {
        self.x = self.x + rhs.x;
        self.y = self.y + rhs.y;
        self.z = self.z + rhs.z;
    }
}

impl core::ops::SubAssign for Vec3 {
    /// Subtracts `rhs` from the vector, component by component.
    fn sub_assign(&mut self, rhs: Vec3)
        ensures
            *final(self) == old(self).minus(rhs),
    {
        self.x = self.x - rhs.x;
        self.y = self.y - rhs.y;
        self.z = self.z - rhs.z;
    }
}

impl core::ops::MulAssign<Scalar> for Vec3 {
    /// Scales the vector by `rhs`.
    fn mul_assign(&mut self, rhs: Scalar)
        ensures
            *final(self) == old(self).scaled(rhs),
    {
        self.x = self.x * rhs;
        self.y = self.y * rhs;
        self.z = self.z * rhs;
    }
}

impl core::ops::DivAssign<Scalar> for Vec3 {
    /// Divides each component by `rhs`.
    fn div_assign(&mut self, rhs: Scalar)
        ensures
            *final(self) == old(self).over(rhs),
    {
        self.x = self.x / rhs;
        self.y = self.y / rhs;
        self.z = self.z / rhs;
    }
}

impl Default for Vec3 {
    /// The zero vector.
    fn default() -> (r: Vec3)
        ensures
            r == Vec3::zero_spec(),
    {
        Vec3::zero()
    }
}

/// The dot product does not depend on the order of the vectors.
pub proof fn lemma_dot_commutes(u: Vec3, v: Vec3)
    ensures
        dot_spec(u, v) == dot_spec(v, u),
{
    u.x.lemma_times_commutes(v.x);
    u.y.lemma_times_commutes(v.y);
    u.z.lemma_times_commutes(v.z);
}

/// Negating one vector negates the dot product.
pub proof fn lemma_dot_negated(u: Vec3, v: Vec3)
    requires
        u.in_range(),
    ensures
        dot_spec(u.negated(), v).raw == -dot_spec(u, v).raw,
{
    u.x.lemma_times_negated(v.x);
    u.y.lemma_times_negated(v.y);
    u.z.lemma_times_negated(v.z);
}

/// The dot product of two vectors.
pub fn dot(u: &Vec3, v: &Vec3) -> (r: Scalar)
    ensures
        r == dot_spec(*u, *v),
{
    u.x * v.x + u.y * v.y + u.z * v.z
}

/// The cross product of two vectors.
pub fn cross(u: &Vec3, v: &Vec3) -> (r: Vec3)
    ensures
        r == cross_spec(*u, *v),
{
    Vec3 {
        x: u.y * v.z - u.z * v.y,
        y: u.z * v.x - u.x * v.z,
        z: u.x * v.y - u.y * v.x,
    }
}

/// The vector scaled to unit length, as far as rounding allows.
pub fn unit_vector(v: Vec3) -> (r: Vec3)
    ensures
        r == unit_vector_spec(v),
{
    v / v.length()
}

/// Number of random points that [`random_unit_vector`] tries before it gives up.
pub const UNIT_VECTOR_ATTEMPTS: u32 = u32::MAX;

/// `p` can be scaled to unit length: it is not the zero vector, as far as its
/// squared length shows, and lies in the unit ball.
pub open spec fn in_unit_ball(p: Vec3) -> bool {
    0 < p.length_squared_spec().raw <= SCALE
}

/// `p` divided by its length if it lies in the unit ball and is not zero.
pub fn unit_vector_in_ball(p: Vec3) -> (r: Option<Vec3>)
    ensures
        r == (if in_unit_ball(p) {
            Some(unit_vector_spec(p))
        } else {
            None
        }),
{
    let lensq: Scalar = p.length_squared();
    if 0 < lensq.raw && lensq.raw <= SCALE {
        Some(p / lensq.sqrt())
    } else {
        None
    }
}

/// A random direction: the first of up to [`UNIT_VECTOR_ATTEMPTS`] random points
/// of the cube `[-1, 1)` cubed that lies in the unit ball, scaled to unit length.
/// Returns nothing only if that many points were drawn and none of them does.
pub fn random_unit_vector() -> (r: Option<Vec3>)
    ensures
        exists|draws: Seq<Vec3>|
            #![trigger is_run_of_draws(draws)]
            is_run_of_draws(draws) && r == first_unit_in_ball(draws) && (r is None
                ==> draws.len() == UNIT_VECTOR_ATTEMPTS),
        r matches Some(u) ==> exists|p: Vec3|
            #![trigger in_unit_ball(p)]
            p.within(Scalar::from_int_spec(-1), Scalar::from_int_spec(1)) && in_unit_ball(p) && u
                == unit_vector_spec(p),
{
    let mut attempts: u32 = 0;
    let ghost mut draws: Seq<Vec3> = Seq::empty();
    while attempts < UNIT_VECTOR_ATTEMPTS
        invariant
            attempts <= UNIT_VECTOR_ATTEMPTS,
            draws.len() == attempts,
            is_run_of_draws(draws),
            forall|k: int| 0 <= k < draws.len() ==> !in_unit_ball(#[trigger] draws[k]),
            first_unit_in_ball(draws) is None,
        decreases UNIT_VECTOR_ATTEMPTS - attempts,
    {
        let p: Vec3 = Vec3::random_in_range(Scalar::from_int(-1), Scalar::from_int(1));
        let unit: Option<Vec3> = unit_vector_in_ball(p);
        proof {
            let longer = draws.push(p);
            assert(longer.drop_last() =~= draws);
            assert(longer.last() == p);
            assert(is_run_of_draws(longer));
            assert(first_unit_in_ball(longer) == unit);
            draws = longer;
        }
        if unit.is_some() {
            return unit;
        }
        attempts += 1;
    }
    None
}

/// `draws` can be what [`random_unit_vector`] draws in one call: no more points
/// than it tries, each of the cube `[-1, 1)` cubed, and none after the first
/// that lies in the unit ball.
pub open spec fn is_run_of_draws(draws: Seq<Vec3>) -> bool {
    &&& draws.len() <= UNIT_VECTOR_ATTEMPTS
    &&& forall|k: int|
        0 <= k < draws.len() ==> (#[trigger] draws[k]).within(
            Scalar::from_int_spec(-1),
            Scalar::from_int_spec(1),
        )
    &&& forall|k: int| 0 <= k < draws.len() - 1 ==> !in_unit_ball(#[trigger] draws[k])
}

/// The first of `draws` that lies in the unit ball, scaled to unit length; none
/// if none of them does.
pub open spec fn first_unit_in_ball(draws: Seq<Vec3>) -> Option<Vec3>
    decreases draws.len(),
{
    if draws.len() == 0 {
        None
    } else {
        match first_unit_in_ball(draws.drop_last()) {
            Some(unit) => Some(unit),
            None => if in_unit_ball(draws.last()) {
                Some(unit_vector_spec(draws.last()))
            } else {
                None
            },
        }
    }
}

} // verus!
