//! Three-component vector algebra over fixed-point scalars.
//!
//! One struct serves as vector, point and colour, as the aliases say.
//! Every operation is specified exactly: the contract of each method
//! gives the fixed-point value of every component of its result.

use vstd::prelude::*;
use crate::fixed::{
    SCALE, FP_MAX, fp_ok, add_fp, sub_fp, neg_fp, mul_fp, div_fp, abs_fp, min_fp, sqrt_fp,
    fadd, fsub, fmul, fdiv, fabs, fmin, fsqrt,
};
use crate::rng::{Rng, next_state_s};

verus! {

/// Magnitude below which a component counts as zero: the smallest
/// magnitude whose square is still representable at this precision,
/// playing the role the `1e-8` threshold plays in double precision.
pub const NEAR_ZERO_EPS: i64 = 1_000;

/// The scalar two, used by the reflection formula.
pub const TWO_FP: i64 = 2_000_000;

#[derive(Clone, Copy, PartialEq, Eq, Structural, Debug)]
pub struct Vec3 {
    pub x: i64,
    pub y: i64,
    pub z: i64,
}

pub type Color = Vec3;

pub type Point3 = Vec3;

/// A vector whose components are all representable scalars.
pub open spec fn vec_ok(v: Vec3) -> bool {
    fp_ok(v.x as int) && fp_ok(v.y as int) && fp_ok(v.z as int)
}

/// The vector with the given component values.
pub open spec fn vec3_s(x: int, y: int, z: int) -> Vec3
    recommends
        fp_ok(x),
        fp_ok(y),
        fp_ok(z),
{
    Vec3 { x: x as i64, y: y as i64, z: z as i64 }
}

pub open spec fn vadd_s(a: Vec3, b: Vec3) -> Vec3 {
    vec3_s(add_fp(a.x as int, b.x as int), add_fp(a.y as int, b.y as int), add_fp(a.z as int, b.z as int))
}

pub open spec fn vsub_s(a: Vec3, b: Vec3) -> Vec3 {
    vec3_s(sub_fp(a.x as int, b.x as int), sub_fp(a.y as int, b.y as int), sub_fp(a.z as int, b.z as int))
}

pub open spec fn vneg_s(a: Vec3) -> Vec3 {
    vec3_s(neg_fp(a.x as int), neg_fp(a.y as int), neg_fp(a.z as int))
}

/// Scale every component by the scalar `s`.
pub open spec fn vscale_s(a: Vec3, s: int) -> Vec3 {
    vec3_s(mul_fp(a.x as int, s), mul_fp(a.y as int, s), mul_fp(a.z as int, s))
}

/// Component-wise product, as used to attenuate colours.
pub open spec fn vmul_s(a: Vec3, b: Vec3) -> Vec3 {
    vec3_s(mul_fp(a.x as int, b.x as int), mul_fp(a.y as int, b.y as int), mul_fp(a.z as int, b.z as int))
}

/// Divide every component by the scalar `s`.
pub open spec fn vdiv_s(a: Vec3, s: int) -> Vec3 {
    vec3_s(div_fp(a.x as int, s), div_fp(a.y as int, s), div_fp(a.z as int, s))
}

pub open spec fn dot_s(a: Vec3, b: Vec3) -> int {
    add_fp(
        add_fp(mul_fp(a.x as int, b.x as int), mul_fp(a.y as int, b.y as int)),
        mul_fp(a.z as int, b.z as int),
    )
}

pub open spec fn cross_s(a: Vec3, b: Vec3) -> Vec3 {
    vec3_s(
        sub_fp(mul_fp(a.y as int, b.z as int), mul_fp(a.z as int, b.y as int)),
        sub_fp(mul_fp(a.z as int, b.x as int), mul_fp(a.x as int, b.z as int)),
        sub_fp(mul_fp(a.x as int, b.y as int), mul_fp(a.y as int, b.x as int)),
    )
}

pub open spec fn square_len_s(a: Vec3) -> int {
    dot_s(a, a)
}

pub open spec fn len_s(a: Vec3) -> int {
    sqrt_fp(square_len_s(a))
}

/// The unit vector in the direction of `a`: each component divided by
/// the length. A vector of zero length saturates component-wise.
pub open spec fn unit_s(a: Vec3) -> Vec3 {
    vdiv_s(a, len_s(a))
}

pub open spec fn near_zero_s(a: Vec3) -> bool {
    abs_fp(a.x as int) < NEAR_ZERO_EPS && abs_fp(a.y as int) < NEAR_ZERO_EPS && abs_fp(
        a.z as int,
    ) < NEAR_ZERO_EPS
}

/// Mirror `v` about the plane with normal `n`: `v - n * (2 * (v . n))`.
pub open spec fn reflect_s(v: Vec3, n: Vec3) -> Vec3 {
    vsub_s(v, vscale_s(n, mul_fp(TWO_FP as int, dot_s(v, n))))
}

/// Bend `v` through the surface with normal `n` at refraction ratio
/// `eta`, Snell's law split into a perpendicular and a parallel part.
pub open spec fn refract_s(v: Vec3, n: Vec3, eta: int) -> Vec3 {
    let cos = min_fp(dot_s(vscale_s(v, -(SCALE as int)), n), SCALE as int);
    let perp = vscale_s(vadd_s(v, vscale_s(n, cos)), eta);
    let parallel = vscale_s(n, -sqrt_fp(abs_fp((SCALE as int) - square_len_s(perp))));
    vadd_s(perp, parallel)
}

/// Negating a vector negates its dot product with any other vector.
pub proof fn lemma_dot_neg_left(a: Vec3, b: Vec3)
    requires
        vec_ok(a),
    ensures
        dot_s(vneg_s(a), b) == -dot_s(a, b),
{
    crate::fixed::lemma_mul_fp_neg_left(a.x as int, b.x as int);
    crate::fixed::lemma_mul_fp_neg_left(a.y as int, b.y as int);
    crate::fixed::lemma_mul_fp_neg_left(a.z as int, b.z as int);
}

/// Negating a vector keeps its squared length.
pub proof fn lemma_square_len_neg(a: Vec3)
    requires
        vec_ok(a),
    ensures
        square_len_s(vneg_s(a)) == square_len_s(a),
{
    crate::fixed::lemma_mul_fp_neg_both(a.x as int, a.x as int);
    crate::fixed::lemma_mul_fp_neg_both(a.y as int, a.y as int);
    crate::fixed::lemma_mul_fp_neg_both(a.z as int, a.z as int);
}

/// A squared length is never negative.
pub proof fn lemma_square_len_nonneg(v: Vec3)
    ensures
        0 <= square_len_s(v),
{
    crate::fixed::lemma_mul_fp_self_nonneg(v.x as int);
    crate::fixed::lemma_mul_fp_self_nonneg(v.y as int);
    crate::fixed::lemma_mul_fp_self_nonneg(v.z as int);
}

impl Vec3 {
    /// The zero vector.
    pub fn new_default() -> (r: Vec3)
        ensures
            r == (Vec3 { x: 0i64, y: 0i64, z: 0i64 }),
    {
        Vec3::new(0, 0, 0)
    }

    pub fn new(x: i64, y: i64, z: i64) -> (r: Vec3)
        ensures
            r == (Vec3 { x, y, z }),
    {
        Vec3 { x, y, z }
    }

    pub fn dot(lhs: &Vec3, rhs: &Vec3) -> (r: i64)
        requires
            vec_ok(*lhs),
            vec_ok(*rhs),
        ensures
            r == dot_s(*lhs, *rhs),
            fp_ok(r as int),
    {
        let xx: i64 = fmul(lhs.x, rhs.x);
        let yy: i64 = fmul(lhs.y, rhs.y);
        let zz: i64 = fmul(lhs.z, rhs.z);
        fadd(fadd(xx, yy), zz)
    }

    pub fn cross(lhs: &Vec3, rhs: &Vec3) -> (r: Vec3)
        requires
            vec_ok(*lhs),
            vec_ok(*rhs),
        ensures
            r == cross_s(*lhs, *rhs),
            vec_ok(r),
    {
        Vec3 {
            x: fsub(fmul(lhs.y, rhs.z), fmul(lhs.z, rhs.y)),
            y: fsub(fmul(lhs.z, rhs.x), fmul(lhs.x, rhs.z)),
            z: fsub(fmul(lhs.x, rhs.y), fmul(lhs.y, rhs.x)),
        }
    }

    pub fn add(&self, rhs: &Vec3) -> (r: Vec3)
        requires
            vec_ok(*self),
            vec_ok(*rhs),
        ensures
            r == vadd_s(*self, *rhs),
            vec_ok(r),
    {
        Vec3 { x: fadd(self.x, rhs.x), y: fadd(self.y, rhs.y), z: fadd(self.z, rhs.z) }
    }

    pub fn sub(&self, rhs: &Vec3) -> (r: Vec3)
        requires
            vec_ok(*self),
            vec_ok(*rhs),
        ensures
            r == vsub_s(*self, *rhs),
            vec_ok(r),
    {
        Vec3 { x: fsub(self.x, rhs.x), y: fsub(self.y, rhs.y), z: fsub(self.z, rhs.z) }
    }

    pub fn neg(&self) -> (r: Vec3)
        requires
            vec_ok(*self),
        ensures
            r == vneg_s(*self),
            vec_ok(r),
    {
        Vec3 { x: -self.x, y: -self.y, z: -self.z }
    }

    pub fn mul_scalar(&self, s: i64) -> (r: Vec3)
        requires
            vec_ok(*self),
            fp_ok(s as int),
        ensures
            r == vscale_s(*self, s as int),
            vec_ok(r),
    {
        Vec3 { x: fmul(self.x, s), y: fmul(self.y, s), z: fmul(self.z, s) }
    }

    pub fn mul_vec(&self, rhs: &Vec3) -> (r: Vec3)
        requires
            vec_ok(*self),
            vec_ok(*rhs),
        ensures
            r == vmul_s(*self, *rhs),
            vec_ok(r),
    {
        Vec3 { x: fmul(self.x, rhs.x), y: fmul(self.y, rhs.y), z: fmul(self.z, rhs.z) }
    }

    pub fn div_scalar(&self, s: i64) -> (r: Vec3)
        requires
            vec_ok(*self),
            fp_ok(s as int),
        ensures
            r == vdiv_s(*self, s as int),
            vec_ok(r),
    {
        Vec3 { x: fdiv(self.x, s), y: fdiv(self.y, s), z: fdiv(self.z, s) }
    }

    pub fn sqaure_length(&self) -> (r: i64)
        requires
            vec_ok(*self),
        ensures
            r == square_len_s(*self),
            fp_ok(r as int),
    {
        Vec3::dot(self, self)
    }

    pub fn length(&self) -> (r: i64)
        requires
            vec_ok(*self),
        ensures
            r == len_s(*self),
            0 <= r <= FP_MAX,
    {
        fsqrt(self.sqaure_length())
    }

    /// Divide `self` by its own length in place.
    pub fn normalize(&mut self)
        requires
            vec_ok(*old(self)),
        ensures
            *final(self) == unit_s(*old(self)),
            vec_ok(*final(self)),
    {
        let len: i64 = self.length();
        self.x = fdiv(self.x, len);
        self.y = fdiv(self.y, len);
        self.z = fdiv(self.z, len);
    }

    /// The unit vector in the direction of `self`, as a new value.
    pub fn get_normal(&self) -> (r: Vec3)
        requires
            vec_ok(*self),
        ensures
            r == unit_s(*self),
            vec_ok(r),
    {
        let len: i64 = self.length();
        self.div_scalar(len)
    }

    pub fn reflect(&self, normal: &Vec3) -> (r: Vec3)
        requires
            vec_ok(*self),
            vec_ok(*normal),
        ensures
            r == reflect_s(*self, *normal),
            vec_ok(r),
    {
        let d: i64 = Vec3::dot(self, normal);
        let k: i64 = fmul(TWO_FP, d);
        self.sub(&normal.mul_scalar(k))
    }

    pub fn refract(&self, normal: &Vec3, eta: i64) -> (r: Vec3)
        requires
            vec_ok(*self),
            vec_ok(*normal),
            fp_ok(eta as int),
        ensures
            r == refract_s(*self, *normal, eta as int),
            vec_ok(r),
    {
        let inv_self: Vec3 = self.mul_scalar(-SCALE);
        let cos: i64 = fmin(Vec3::dot(&inv_self, normal), SCALE);
        let refract_perp: Vec3 = self.add(&normal.mul_scalar(cos)).mul_scalar(eta);
        let parallel_len: i64 = fsqrt(fabs(fsub(SCALE, refract_perp.sqaure_length())));
        let refract_parallel: Vec3 = normal.mul_scalar(-parallel_len);
        refract_perp.add(&refract_parallel)
    }

    /// Write one component, chosen by index; any index past the third
    /// component is rejected.
    pub fn set_from_index(&mut self, index: usize, value: i64) -> (r: Result<(), ()>)
        ensures
            index == 0 ==> r is Ok && *final(self) == (Vec3 { x: value, ..*old(self) }),
            index == 1 ==> r is Ok && *final(self) == (Vec3 { y: value, ..*old(self) }),
            index == 2 ==> r is Ok && *final(self) == (Vec3 { z: value, ..*old(self) }),
            index >= 3 ==> r is Err && *final(self) == *old(self),
    {
        match index {
            0 => {
                self.x = value;
                Ok(())
            },
            1 => {
                self.y = value;
                Ok(())
            },
            2 => {
                self.z = value;
                Ok(())
            },
            _ => Err(()),
        }
    }

    /// Read one component, chosen by index; any index past the third
    /// component is rejected.
    pub fn get_from_index(&self, index: usize) -> (r: Result<i64, ()>)
        ensures
            index == 0 ==> r == Ok::<i64, ()>(self.x),
            index == 1 ==> r == Ok::<i64, ()>(self.y),
            index == 2 ==> r == Ok::<i64, ()>(self.z),
            index >= 3 ==> r is Err,
    {
        match index {
            0 => Ok(self.x),
            1 => Ok(self.y),
            2 => Ok(self.z),
            _ => Err(()),
        }
    }

    pub fn is_near_zero(&self) -> (r: bool)
        requires
            vec_ok(*self),
        ensures
            r == near_zero_s(*self),
    {
        fabs(self.x) < NEAR_ZERO_EPS && fabs(self.y) < NEAR_ZERO_EPS && fabs(self.z)
            < NEAR_ZERO_EPS
    }

    /// A vector whose components are unit-interval samples.
    pub fn rand(rng: &mut Rng) -> (r: Vec3)
        ensures
            vec_ok(r),
            0 <= r.x < SCALE,
            0 <= r.y < SCALE,
            0 <= r.z < SCALE,
    {
        Vec3::rand_range((0, SCALE), rng)
    }

    /// A vector whose components are samples from `[range.0, range.1)`,
    /// drawn in x, y, z order.
    pub fn rand_range(range: (i64, i64), rng: &mut Rng) -> (r: Vec3)
        requires
            fp_ok(range.0 as int),
            fp_ok(range.1 as int),
            range.0 < range.1,
            range.1 - range.0 <= FP_MAX,
        ensures
            vec_ok(r),
            range.0 <= r.x < range.1,
            range.0 <= r.y < range.1,
            range.0 <= r.z < range.1,
            final(rng).state == next_state_s(next_state_s(next_state_s(old(rng).state))),
    {
        let x: i64 = rng.next_range(range.0, range.1);
        let y: i64 = rng.next_range(range.0, range.1);
        let z: i64 = rng.next_range(range.0, range.1);
        Vec3 { x, y, z }
    }

    /// A vector inside the unit sphere: sampled by rejection, with a
    /// fixed interior fallback should every attempt land outside.
    pub fn rand_in_unit_sphere(rng: &mut Rng) -> (r: Vec3)
        ensures
            vec_ok(r),
            square_len_s(r) <= SCALE,
            -SCALE <= r.x < SCALE,
            -SCALE <= r.y < SCALE,
            -SCALE <= r.z < SCALE,
    {
        let mut tries: usize = 0;
        while tries < 32
            invariant
                tries <= 32,
            decreases 32 - tries,
        {
            let result: Vec3 = Vec3::rand_range((-SCALE, SCALE), rng);
            if result.sqaure_length() <= SCALE {
                return result;
            }
            tries = tries + 1;
        }
        let fallback: Vec3 = Vec3 { x: SCALE / 2, y: 0, z: 0 };
        proof {
            crate::fixed::lemma_mul_fp_le_left(500_000, 500_000);
            crate::fixed::lemma_mul_fp_le_left(0, 0);
        }
        fallback
    }

    /// A unit-sphere sample oriented into the hemisphere of the given
    /// normal: a sample pointing away from the normal is flipped.
    pub fn rand_in_hemisphere(normal: &Vec3, rng: &mut Rng) -> (r: Vec3)
        requires
            vec_ok(*normal),
        ensures
            vec_ok(r),
            square_len_s(r) <= SCALE,
            dot_s(r, *normal) >= 0,
            -SCALE <= r.x <= SCALE,
            -SCALE <= r.y <= SCALE,
            -SCALE <= r.z <= SCALE,
    {
        let in_unit_sphere: Vec3 = Vec3::rand_in_unit_sphere(rng);
        if Vec3::dot(&in_unit_sphere, normal) > 0 {
            in_unit_sphere
        } else {
            proof {
                lemma_dot_neg_left(in_unit_sphere, *normal);
                lemma_square_len_neg(in_unit_sphere);
            }
            in_unit_sphere.neg()
        }
    }

    /// A vector strictly inside the unit disk of the xy-plane: sampled
    /// by rejection, with a fixed interior fallback.
    pub fn rand_in_unit_disk(rng: &mut Rng) -> (r: Vec3)
        ensures
            vec_ok(r),
            square_len_s(r) < SCALE,
            r.z == 0,
            -SCALE <= r.x < SCALE,
            -SCALE <= r.y < SCALE,
    {
        let mut tries: usize = 0;
        while tries < 32
            invariant
                tries <= 32,
            decreases 32 - tries,
        {
            let x: i64 = rng.next_range(-SCALE, SCALE);
            let y: i64 = rng.next_range(-SCALE, SCALE);
            let point: Vec3 = Vec3 { x, y, z: 0 };
            if point.sqaure_length() < SCALE {
                return point;
            }
            tries = tries + 1;
        }
        let fallback: Vec3 = Vec3 { x: SCALE / 2, y: 0, z: 0 };
        proof {
            crate::fixed::lemma_mul_fp_le_left(500_000, 500_000);
            crate::fixed::lemma_mul_fp_le_left(0, 0);
        }
        fallback
    }
}

} // verus!
