//! Intersectable geometry: the hit record and the sphere primitive.

use vstd::prelude::*;
use crate::fixed::{
    SCALE, fp_ok, add_fp, sub_fp, neg_fp, mul_fp, div_fp, sqrt_fp, fadd, fsub, fneg, fmul, fdiv,
    fsqrt,
};
use crate::vec3::{Vec3, Point3, vec_ok, vsub_s, vneg_s, vdiv_s, dot_s, square_len_s};
use crate::ray::{Ray, ray_ok, point_at_s};
use crate::material::{Material, ErrorMat, mat_ok};

verus! {

/// The nearest valid intersection of a ray with an object: the hit
/// point, the front-face-corrected normal, the ray parameter at the
/// hit, and the material of the object that was struck.
#[derive(Clone, Copy, PartialEq, Eq, Structural, Debug)]
pub struct HitRecord {
    pub point: Point3,
    pub normal: Vec3,
    pub weight: i64,
    pub is_front_face: bool,
    pub material: Material,
}

/// A hit record whose vectors and parameter are representable.
pub open spec fn rec_ok(rec: HitRecord) -> bool {
    vec_ok(rec.point) && vec_ok(rec.normal) && fp_ok(rec.weight as int)
}

impl HitRecord {
    /// Orient the stored normal against the incoming ray: the record
    /// keeps the normal pointing toward the ray, and the flag says
    /// whether the geometric normal already did.
    pub fn set_face_from_ray(&mut self, ray: &Ray)
        requires
            rec_ok(*old(self)),
            ray_ok(*ray),
        ensures
            final(self).is_front_face == (dot_s(ray.direction, old(self).normal) < 0),
            final(self).normal == if dot_s(ray.direction, old(self).normal) < 0 {
                old(self).normal
            } else {
                vneg_s(old(self).normal)
            },
            final(self).point == old(self).point,
            final(self).weight == old(self).weight,
            final(self).material == old(self).material,
            rec_ok(*final(self)),
    {
        self.is_front_face = Vec3::dot(ray.get_direction(), &self.normal) < 0;
        if self.is_front_face == false {
            self.normal = self.normal.neg();
        }
    }
}

/// The sole primitive: a sphere with an owned material.
#[derive(Clone, Copy, PartialEq, Eq, Structural, Debug)]
pub struct Sphere {
    pub center: Point3,
    pub radius: i64,
    pub material: Material,
}

/// A sphere with a representable centre and a nonnegative radius.
pub open spec fn sphere_ok(s: Sphere) -> bool {
    vec_ok(s.center) && fp_ok(s.radius as int) && s.radius >= 0 && mat_ok(s.material)
}

/// Vector from the sphere's centre to the ray's origin.
pub open spec fn sphere_oc_s(s: Sphere, ray: Ray) -> Vec3 {
    vsub_s(ray.origin, s.center)
}

/// The quadratic coefficient `a`: the squared length of the direction.
pub open spec fn sphere_a_s(s: Sphere, ray: Ray) -> int {
    square_len_s(ray.direction)
}

/// The half-b coefficient of the quadratic.
pub open spec fn sphere_half_b_s(s: Sphere, ray: Ray) -> int {
    dot_s(sphere_oc_s(s, ray), ray.direction)
}

/// The constant coefficient `c`.
pub open spec fn sphere_c_s(s: Sphere, ray: Ray) -> int {
    sub_fp(square_len_s(sphere_oc_s(s, ray)), mul_fp(s.radius as int, s.radius as int))
}

/// The discriminant `half_b^2 - a * c` of the intersection quadratic.
pub open spec fn sphere_disc_s(s: Sphere, ray: Ray) -> int {
    sub_fp(
        mul_fp(sphere_half_b_s(s, ray), sphere_half_b_s(s, ray)),
        mul_fp(sphere_a_s(s, ray), sphere_c_s(s, ray)),
    )
}

/// The nearer root `(-half_b - sqrt(disc)) / a`.
pub open spec fn sphere_near_root_s(s: Sphere, ray: Ray) -> int {
    div_fp(
        sub_fp(neg_fp(sphere_half_b_s(s, ray)), sqrt_fp(sphere_disc_s(s, ray))),
        sphere_a_s(s, ray),
    )
}

/// The farther root `(-half_b + sqrt(disc)) / a`.
pub open spec fn sphere_far_root_s(s: Sphere, ray: Ray) -> int {
    div_fp(
        add_fp(neg_fp(sphere_half_b_s(s, ray)), sqrt_fp(sphere_disc_s(s, ray))),
        sphere_a_s(s, ray),
    )
}

/// The parameter at which the ray hits the sphere within
/// `[t_min, t_max]`: the nearer root when it lies in the interval,
/// else the farther root when it does, else no hit. A negative
/// discriminant is a miss.
pub open spec fn sphere_hit_t_s(s: Sphere, ray: Ray, t_min: int, t_max: int) -> Option<int> {
    if sphere_disc_s(s, ray) < 0 {
        None
    } else if t_min <= sphere_near_root_s(s, ray) <= t_max {
        Some(sphere_near_root_s(s, ray))
    } else if t_min <= sphere_far_root_s(s, ray) <= t_max {
        Some(sphere_far_root_s(s, ray))
    } else {
        None
    }
}

/// The record a hit of the sphere at parameter `t` produces: the point
/// along the ray, the outward normal `(point - centre) / radius`
/// corrected to face the ray, and the sphere's material.
pub open spec fn sphere_record_s(s: Sphere, ray: Ray, t: int) -> HitRecord {
    let p = point_at_s(ray, t);
    let outward = vdiv_s(vsub_s(p, s.center), s.radius as int);
    let front = dot_s(ray.direction, outward) < 0;
    HitRecord {
        point: p,
        normal: if front {
            outward
        } else {
            vneg_s(outward)
        },
        weight: t as i64,
        is_front_face: front,
        material: s.material,
    }
}

/// The nearer root never exceeds the farther root.
pub proof fn lemma_sphere_roots_ordered(s: Sphere, ray: Ray)
    ensures
        sphere_near_root_s(s, ray) <= sphere_far_root_s(s, ray),
{
    let hb = sphere_half_b_s(s, ray);
    let sq = sqrt_fp(sphere_disc_s(s, ray));
    let a = sphere_a_s(s, ray);
    crate::vec3::lemma_square_len_nonneg(ray.direction);
    if sphere_disc_s(s, ray) > 0 {
        crate::fixed::lemma_isqrt_bounds((sphere_disc_s(s, ray) * SCALE) as nat);
    }
    assert(sq >= 0);
    crate::fixed::lemma_div_fp_monotone(sub_fp(neg_fp(hb), sq), add_fp(neg_fp(hb), sq), a);
}

/// Querying a sphere with a tightened upper bound keeps exactly the
/// hits whose parameter still fits under the bound.
pub proof fn lemma_sphere_hit_shrink(s: Sphere, ray: Ray, t_min: int, ub: int, t_max: int)
    requires
        ub <= t_max,
    ensures
        sphere_hit_t_s(s, ray, t_min, ub) == (match sphere_hit_t_s(s, ray, t_min, t_max) {
            Some(t) => if t <= ub {
                Some(t)
            } else {
                None
            },
            None => None::<int>,
        }),
{
    lemma_sphere_roots_ordered(s, ray);
}

impl Sphere {
    /// A degenerate sphere at the origin whose material rejects every
    /// scatter: a placeholder, never part of a real scene.
    pub fn new_default() -> (r: Sphere)
        ensures
            r.center == (Vec3 { x: 0i64, y: 0i64, z: 0i64 }),
            r.radius == 0,
            r.material == Material::Error(ErrorMat {  }),
            sphere_ok(r),
    {
        Sphere::new(Point3::new_default(), 0, Material::Error(ErrorMat::new_default()))
    }

    pub fn new(center: Point3, radius: i64, material: Material) -> (r: Sphere)
        requires
            vec_ok(center),
            fp_ok(radius as int),
            radius >= 0,
            mat_ok(material),
        ensures
            r == (Sphere { center, radius, material }),
            sphere_ok(r),
    {
        Sphere { center, radius, material }
    }

    /// The nearest intersection of `ray` with this sphere at a
    /// parameter within `[weight_min, weight_max]`, or `Err` when the
    /// ray misses that interval.
    pub fn hit(&self, ray: &Ray, weight_min: i64, weight_max: i64) -> (r: Result<HitRecord, ()>)
        requires
            sphere_ok(*self),
            ray_ok(*ray),
            fp_ok(weight_min as int),
            fp_ok(weight_max as int),
        ensures
            r is Ok <==> sphere_hit_t_s(*self, *ray, weight_min as int, weight_max as int) is Some,
            r is Ok ==> {
                let t = sphere_hit_t_s(*self, *ray, weight_min as int, weight_max as int)->0;
                &&& r->Ok_0 == sphere_record_s(*self, *ray, t)
                &&& r->Ok_0.weight == t
                &&& weight_min <= t <= weight_max
                &&& rec_ok(r->Ok_0)
            },
    {
        let to_ray_origin: Vec3 = ray.get_origin().sub(&self.center);
        let value_a: i64 = ray.get_direction().sqaure_length();
        let value_half_b: i64 = Vec3::dot(&to_ray_origin, ray.get_direction());
        let value_c: i64 = fsub(to_ray_origin.sqaure_length(), fmul(self.radius, self.radius));
        let discriminant: i64 = fsub(fmul(value_half_b, value_half_b), fmul(value_a, value_c));
        if discriminant < 0 {
            return Err(());
        }
        let sqrtd: i64 = fsqrt(discriminant);
        let mut root: i64 = fdiv(fsub(fneg(value_half_b), sqrtd), value_a);
        if root < weight_min || root > weight_max {
            root = fdiv(fadd(fneg(value_half_b), sqrtd), value_a);
            if root < weight_min || root > weight_max {
                return Err(());
            }
        }

        let hit_point: Point3 = ray.get_point(root);
        let mut record: HitRecord = HitRecord {
            point: hit_point,
            normal: hit_point.sub(&self.center).div_scalar(self.radius),
            weight: root,
            is_front_face: true,
            material: self.material,
        };
        record.set_face_from_ray(ray);
        Ok(record)
    }
}

} // verus!
