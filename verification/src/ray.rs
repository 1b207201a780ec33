//! A ray: an origin and a direction, evaluated parametrically.

use vstd::prelude::*;
use crate::fixed::fp_ok;
use crate::vec3::{Vec3, Point3, vec_ok, vadd_s, vscale_s};

verus! {

#[derive(Clone, Copy, PartialEq, Eq, Structural, Debug)]
pub struct Ray {
    pub origin: Point3,
    pub direction: Vec3,
}

/// A ray whose origin and direction are representable vectors.
pub open spec fn ray_ok(r: Ray) -> bool {
    vec_ok(r.origin) && vec_ok(r.direction)
}

/// The point `origin + direction * t` along the ray `r`.
pub open spec fn point_at_s(r: Ray, t: int) -> Vec3 {
    vadd_s(r.origin, vscale_s(r.direction, t))
}

impl Ray {
    pub fn new_default() -> (r: Ray)
        ensures
            r.origin == (Vec3 { x: 0i64, y: 0i64, z: 0i64 }),
            r.direction == (Vec3 { x: 0i64, y: 0i64, z: 0i64 }),
    {
        Ray::new(Point3::new_default(), Vec3::new_default())
    }

    pub fn new(origin: Point3, direction: Vec3) -> (r: Ray)
        ensures
            r == (Ray { origin, direction }),
    {
        Ray { origin, direction }
    }

    pub fn get_origin(&self) -> (r: &Point3)
        ensures
            *r == self.origin,
    {
        &self.origin
    }

    pub fn get_direction(&self) -> (r: &Vec3)
        ensures
            *r == self.direction,
    {
        &self.direction
    }

    /// The point `origin + direction * weight` along the ray.
    pub fn get_point(&self, weight: i64) -> (r: Point3)
        requires
            ray_ok(*self),
            fp_ok(weight as int),
        ensures
            r == point_at_s(*self, weight as int),
            vec_ok(r),
    {
        self.origin.add(&self.direction.mul_scalar(weight))
    }
}

} // verus!
