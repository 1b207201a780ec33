//! Material scattering: how a surface turns an incoming ray into an
//! attenuated outgoing ray, or absorbs it.
//!
//! The variant set is closed, so the polymorphic dispatch of the
//! design is a tagged enum matched in one place.

use vstd::prelude::*;
use crate::fixed::{
    SCALE, fp_ok, add_fp, sub_fp, mul_fp, div_fp, min_fp, sqrt_fp, fadd, fsub, fmul, fdiv, fmin,
    fsqrt, fclamp, clamp_fp,
};
use crate::vec3::{
    Vec3, Color, vec_ok, vadd_s, vscale_s, dot_s, square_len_s, unit_s, near_zero_s, reflect_s,
    refract_s,
};
use crate::ray::{Ray, ray_ok};
use crate::rng::{Rng, next_state_s, unit_sample_s};
use crate::object::{HitRecord, rec_ok};

verus! {

/// What a successful scatter yields: the colour by which the path is
/// attenuated and the ray to follow next.
#[derive(Clone, Copy, PartialEq, Eq, Structural, Debug)]
pub struct ScatteredResult {
    pub attenuation: Color,
    pub scattered_ray: Ray,
}

/// A diffuse surface.
#[derive(Clone, Copy, PartialEq, Eq, Structural, Debug)]
pub struct Lambertian {
    pub albedo: Color,
}

/// A specular surface whose reflections are perturbed by `fuzziness`,
/// a scalar kept within `[0, SCALE]`.
#[derive(Clone, Copy, PartialEq, Eq, Structural, Debug)]
pub struct Metal {
    pub albedo: Color,
    pub fuzziness: i64,
}

/// A clear surface that refracts or reflects by Fresnel weighting.
#[derive(Clone, Copy, PartialEq, Eq, Structural, Debug)]
pub struct Dielectric {
    pub refraction_index: i64,
}

/// A placeholder material: every scatter fails. It must never remain
/// in a production scene.
#[derive(Clone, Copy, PartialEq, Eq, Structural, Debug)]
pub struct ErrorMat {}

/// The closed set of materials.
#[derive(Clone, Copy, PartialEq, Eq, Structural, Debug)]
pub enum Material {
    Lambertian(Lambertian),
    Metal(Metal),
    Dielectric(Dielectric),
    Error(ErrorMat),
}

/// A material whose fields are representable; a metal's fuzziness
/// lies in `[0, SCALE]`.
pub open spec fn mat_ok(m: Material) -> bool {
    match m {
        Material::Lambertian(l) => vec_ok(l.albedo),
        Material::Metal(mt) => vec_ok(mt.albedo) && 0 <= mt.fuzziness <= SCALE,
        Material::Dielectric(d) => fp_ok(d.refraction_index as int),
        Material::Error(_) => true,
    }
}

/// A material whose albedo is a physical colour: every channel within
/// the unit interval.
pub open spec fn mat_unit_albedo_s(m: Material) -> bool {
    match m {
        Material::Lambertian(l) => unit_color_s(l.albedo),
        Material::Metal(mt) => unit_color_s(mt.albedo),
        Material::Dielectric(_) => true,
        Material::Error(_) => true,
    }
}

/// Every channel of the colour lies in `[0, SCALE]`.
pub open spec fn unit_color_s(c: Color) -> bool {
    0 <= c.x <= SCALE && 0 <= c.y <= SCALE && 0 <= c.z <= SCALE
}

impl Lambertian {
    pub fn new_default() -> (r: Lambertian)
        ensures
            r.albedo == (Vec3 { x: 0i64, y: 0i64, z: 0i64 }),
    {
        Lambertian { albedo: Color::new(0, 0, 0) }
    }

    pub fn new(albedo: Color) -> (r: Lambertian)
        requires
            vec_ok(albedo),
        ensures
            r.albedo == albedo,
    {
        Lambertian { albedo }
    }

    /// Diffuse scatter: always succeeds, attenuates by the albedo, and
    /// bounces toward the normal perturbed by a unit-sphere sample;
    /// a near-zero perturbed direction falls back to the normal.
    pub fn scatter(&self, ray: &Ray, hit_record: &HitRecord, rng: &mut Rng) -> (r: Option<
        ScatteredResult,
    >)
        requires
            vec_ok(self.albedo),
            ray_ok(*ray),
            rec_ok(*hit_record),
        ensures
            r is Some,
            r->0.attenuation == self.albedo,
            r->0.scattered_ray.origin == hit_record.point,
            vec_ok(r->0.scattered_ray.direction),
            exists|sample: Vec3|
                {
                    &&& vec_ok(sample)
                    &&& #[trigger] square_len_s(sample) <= SCALE
                    &&& r->0.scattered_ray.direction == ({
                        let cand = vadd_s(hit_record.normal, unit_s(sample));
                        if near_zero_s(cand) {
                            hit_record.normal
                        } else {
                            cand
                        }
                    })
                },
            !near_zero_s(hit_record.normal) ==> !near_zero_s(r->0.scattered_ray.direction),
    {
        let sphere_sample: Vec3 = Vec3::rand_in_unit_sphere(rng);
        let mut scattered_direction: Vec3 = hit_record.normal.add(&sphere_sample.get_normal());
        if scattered_direction.is_near_zero() {
            scattered_direction = hit_record.normal;
        }

        let scattered_ray: Ray = Ray::new(hit_record.point, scattered_direction);
        let result = ScatteredResult { attenuation: self.albedo, scattered_ray };
        proof {
            let cand = vadd_s(hit_record.normal, unit_s(sphere_sample));
            assert(vec_ok(sphere_sample) && square_len_s(sphere_sample) <= SCALE
                && result.scattered_ray.direction == (if near_zero_s(cand) {
                hit_record.normal
            } else {
                cand
            }));
        }
        Some(result)
    }
}

impl Metal {
    pub fn new_default() -> (r: Metal)
        ensures
            r.albedo == (Vec3 { x: 0i64, y: 0i64, z: 0i64 }),
            r.fuzziness == 0,
    {
        Metal { albedo: Color::new(0, 0, 0), fuzziness: 0 }
    }

    /// A metal with the given albedo; the fuzziness is clamped into
    /// `[0, SCALE]`.
    pub fn new(albedo: Color, fuzziness: i64) -> (r: Metal)
        requires
            vec_ok(albedo),
            fp_ok(fuzziness as int),
        ensures
            r.albedo == albedo,
            r.fuzziness == clamp_fp(fuzziness as int, 0, SCALE as int),
            0 <= r.fuzziness <= SCALE,
    {
        let clamped_fuzziness: i64 = fclamp(fuzziness, 0, SCALE);
        Metal { albedo, fuzziness: clamped_fuzziness }
    }

    /// Specular scatter: always succeeds, attenuates by the albedo,
    /// and follows the mirrored direction perturbed by a fuzzed
    /// unit-sphere sample, renormalised; a near-zero perturbed
    /// direction falls back to the normal.
    pub fn scatter(&self, ray: &Ray, hit_record: &HitRecord, rng: &mut Rng) -> (r: Option<
        ScatteredResult,
    >)
        requires
            vec_ok(self.albedo),
            0 <= self.fuzziness <= SCALE,
            ray_ok(*ray),
            rec_ok(*hit_record),
        ensures
            r is Some,
            r->0.attenuation == self.albedo,
            r->0.scattered_ray.origin == hit_record.point,
            vec_ok(r->0.scattered_ray.direction),
            exists|sample: Vec3|
                {
                    &&& vec_ok(sample)
                    &&& #[trigger] square_len_s(sample) <= SCALE
                    &&& r->0.scattered_ray.direction == ({
                        let cand = vadd_s(
                            reflect_s(unit_s(ray.direction), hit_record.normal),
                            vscale_s(sample, self.fuzziness as int),
                        );
                        if near_zero_s(cand) {
                            hit_record.normal
                        } else {
                            unit_s(cand)
                        }
                    })
                },
    {
        let unit_ray_direction: Vec3 = ray.get_direction().get_normal();
        let reflected_direction: Vec3 = unit_ray_direction.reflect(&hit_record.normal);

        let sphere_sample: Vec3 = Vec3::rand_in_unit_sphere(rng);
        let fuzzy_vector: Vec3 = sphere_sample.mul_scalar(self.fuzziness);
        let mut perturbed: Vec3 = reflected_direction.add(&fuzzy_vector);
        if perturbed.is_near_zero() {
            perturbed = hit_record.normal;
        } else {
            perturbed.normalize();
        }

        let scattered_ray: Ray = Ray::new(hit_record.point, perturbed);
        let result = ScatteredResult { attenuation: self.albedo, scattered_ray };
        proof {
            let cand = vadd_s(
                reflect_s(unit_s(ray.direction), hit_record.normal),
                vscale_s(sphere_sample, self.fuzziness as int),
            );
            assert(vec_ok(sphere_sample) && square_len_s(sphere_sample) <= SCALE
                && result.scattered_ray.direction == (if near_zero_s(cand) {
                hit_record.normal
            } else {
                unit_s(cand)
            }));
        }
        Some(result)
    }
}

/// Schlick's approximation for reflectance at the given cosine and
/// refraction ratio.
pub open spec fn reflectance_s(cos: int, refract_idx: int) -> int {
    let r0 = div_fp(sub_fp(SCALE as int, refract_idx), add_fp(SCALE as int, refract_idx));
    let r0sq = mul_fp(r0, r0);
    let omc = sub_fp(SCALE as int, cos);
    let omc5 = mul_fp(mul_fp(mul_fp(mul_fp(omc, omc), omc), omc), omc);
    add_fp(r0sq, mul_fp(sub_fp(SCALE as int, r0sq), omc5))
}

/// The refraction ratio a dielectric applies for a hit: the index
/// inverted when the ray arrived from outside the surface.
pub open spec fn dielectric_ratio_s(d: Dielectric, front_face: bool) -> int {
    if front_face {
        div_fp(SCALE as int, d.refraction_index as int)
    } else {
        d.refraction_index as int
    }
}

/// The direction a dielectric sends a ray for a given unit-interval
/// draw: reflection when refraction is geometrically impossible or the
/// draw falls below the Schlick reflectance, else refraction.
pub open spec fn dielectric_dir_s(d: Dielectric, ray: Ray, rec: HitRecord, draw: int) -> Vec3 {
    let ratio = dielectric_ratio_s(d, rec.is_front_face);
    let unit_dir = unit_s(ray.direction);
    let cos_theta = min_fp(dot_s(vscale_s(unit_dir, -(SCALE as int)), rec.normal), SCALE as int);
    let sin_theta = sqrt_fp(sub_fp(SCALE as int, mul_fp(cos_theta, cos_theta)));
    if mul_fp(ratio, sin_theta) > SCALE || reflectance_s(cos_theta, ratio) > draw {
        reflect_s(unit_dir, rec.normal)
    } else {
        refract_s(unit_dir, rec.normal, ratio)
    }
}

impl Dielectric {
    pub fn new_default() -> (r: Dielectric)
        ensures
            r.refraction_index == 0,
    {
        Dielectric::new(0)
    }

    pub fn new(refraction_index: i64) -> (r: Dielectric)
        requires
            fp_ok(refraction_index as int),
        ensures
            r.refraction_index == refraction_index,
    {
        Dielectric { refraction_index }
    }

    /// Schlick's reflectance approximation.
    pub fn reflectance(cos: i64, refract_idx: i64) -> (r: i64)
        requires
            fp_ok(cos as int),
            fp_ok(refract_idx as int),
        ensures
            r == reflectance_s(cos as int, refract_idx as int),
            fp_ok(r as int),
    {
        let r0: i64 = fdiv(fsub(SCALE, refract_idx), fadd(SCALE, refract_idx));
        let r0sq: i64 = fmul(r0, r0);
        let omc: i64 = fsub(SCALE, cos);
        let omc5: i64 = fmul(fmul(fmul(fmul(omc, omc), omc), omc), omc);
        fadd(r0sq, fmul(fsub(SCALE, r0sq), omc5))
    }

    /// Glass scatter: always succeeds, attenuates by white, and either
    /// reflects or refracts exactly as `dielectric_dir_s` says for the
    /// one random draw taken.
    pub fn scatter(&self, ray: &Ray, hit_record: &HitRecord, rng: &mut Rng) -> (r: Option<
        ScatteredResult,
    >)
        requires
            fp_ok(self.refraction_index as int),
            ray_ok(*ray),
            rec_ok(*hit_record),
        ensures
            r is Some,
            r->0.attenuation == (Vec3 { x: SCALE, y: SCALE, z: SCALE }),
            r->0.scattered_ray.origin == hit_record.point,
            vec_ok(r->0.scattered_ray.direction),
            final(rng).state == next_state_s(old(rng).state),
            r->0.scattered_ray.direction == dielectric_dir_s(
                *self,
                *ray,
                *hit_record,
                unit_sample_s(next_state_s(old(rng).state)),
            ),
    {
        let refraction_ratio: i64 = if hit_record.is_front_face {
            fdiv(SCALE, self.refraction_index)
        } else {
            self.refraction_index
        };
        let ray_direction: Vec3 = ray.get_direction().get_normal();
        let inv_ray_direction: Vec3 = ray_direction.mul_scalar(-SCALE);
        let cos_theta: i64 = fmin(Vec3::dot(&inv_ray_direction, &hit_record.normal), SCALE);
        let sin_theta: i64 = fsqrt(fsub(SCALE, fmul(cos_theta, cos_theta)));

        let draw: i64 = rng.next_unit();
        let cannot_refract: bool = fmul(refraction_ratio, sin_theta) > SCALE
            || Dielectric::reflectance(cos_theta, refraction_ratio) > draw;

        let refracted: Vec3 = if cannot_refract {
            ray_direction.reflect(&hit_record.normal)
        } else {
            ray_direction.refract(&hit_record.normal, refraction_ratio)
        };

        let albedo: Color = Color::new(SCALE, SCALE, SCALE);
        let scattered_ray: Ray = Ray::new(hit_record.point, refracted);
        Some(ScatteredResult { attenuation: albedo, scattered_ray })
    }
}

impl ErrorMat {
    pub fn new_default() -> (r: ErrorMat) {
        ErrorMat {  }
    }

    /// The placeholder never scatters.
    pub fn scatter(&self, ray: &Ray, hit_record: &HitRecord) -> (r: Option<ScatteredResult>)
        ensures
            r is None,
    {
        None
    }
}

/// How a material may turn an incoming ray at a hit into a scatter
/// outcome, with the sampler draws abstracted: exactly the
/// placeholder absorbs; a diffuse bounce leaves along the perturbed
/// normal, a metal along the fuzzed mirror direction, and glass along
/// the Fresnel-weighted reflection or refraction, each from the hit
/// point and attenuated by the material's own colour.
pub open spec fn scatter_rel(m: Material, ray: Ray, rec: HitRecord, r: Option<ScatteredResult>) -> bool {
    match m {
        Material::Lambertian(l) => {
            &&& r is Some
            &&& r->0.attenuation == l.albedo
            &&& r->0.scattered_ray.origin == rec.point
            &&& vec_ok(r->0.scattered_ray.direction)
            &&& exists|sample: Vec3|
                {
                    &&& vec_ok(sample)
                    &&& #[trigger] square_len_s(sample) <= SCALE
                    &&& r->0.scattered_ray.direction == ({
                        let cand = vadd_s(rec.normal, unit_s(sample));
                        if near_zero_s(cand) {
                            rec.normal
                        } else {
                            cand
                        }
                    })
                }
        },
        Material::Metal(mt) => {
            &&& r is Some
            &&& r->0.attenuation == mt.albedo
            &&& r->0.scattered_ray.origin == rec.point
            &&& vec_ok(r->0.scattered_ray.direction)
            &&& exists|sample: Vec3|
                {
                    &&& vec_ok(sample)
                    &&& #[trigger] square_len_s(sample) <= SCALE
                    &&& r->0.scattered_ray.direction == ({
                        let cand = vadd_s(
                            reflect_s(unit_s(ray.direction), rec.normal),
                            vscale_s(sample, mt.fuzziness as int),
                        );
                        if near_zero_s(cand) {
                            rec.normal
                        } else {
                            unit_s(cand)
                        }
                    })
                }
        },
        Material::Dielectric(d) => {
            &&& r is Some
            &&& r->0.attenuation == (Vec3 { x: SCALE, y: SCALE, z: SCALE })
            &&& r->0.scattered_ray.origin == rec.point
            &&& vec_ok(r->0.scattered_ray.direction)
            &&& exists|draw: int|
                0 <= draw < SCALE && r->0.scattered_ray.direction == #[trigger] dielectric_dir_s(
                    d,
                    ray,
                    rec,
                    draw,
                )
        },
        Material::Error(_) => r is None,
    }
}

impl Material {
    /// Dispatch to the variant's scatter. Exactly the placeholder
    /// fails; every real material succeeds, scatters from the hit
    /// point, and attenuates by its own colour.
    pub fn scatter(&self, ray: &Ray, hit_record: &HitRecord, rng: &mut Rng) -> (r: Option<
        ScatteredResult,
    >)
        requires
            mat_ok(*self),
            ray_ok(*ray),
            rec_ok(*hit_record),
        ensures
            r is Some <==> !(*self is Error),
            r is Some ==> r->0.scattered_ray.origin == hit_record.point,
            r is Some ==> vec_ok(r->0.scattered_ray.direction) && vec_ok(r->0.attenuation),
            *self matches Material::Lambertian(l) ==> r is Some && r->0.attenuation == l.albedo,
            *self matches Material::Metal(m) ==> r is Some && r->0.attenuation == m.albedo,
            *self is Dielectric ==> r is Some && r->0.attenuation == (Vec3 {
                x: SCALE,
                y: SCALE,
                z: SCALE,
            }),
            r is Some && mat_unit_albedo_s(*self) ==> unit_color_s(r->0.attenuation),
            scatter_rel(*self, *ray, *hit_record, r),
    {
        match self {
            Material::Lambertian(l) => l.scatter(ray, hit_record, rng),
            Material::Metal(m) => m.scatter(ray, hit_record, rng),
            Material::Dielectric(d) => {
                let scattered = d.scatter(ray, hit_record, rng);
                proof {
                    crate::rng::lemma_unit_sample_bounds(next_state_s(old(rng).state));
                }
                scattered
            },
            Material::Error(e) => e.scatter(ray, hit_record),
        }
    }
}

} // verus!
