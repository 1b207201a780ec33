//! The camera: maps normalised viewport coordinates and a lens sample
//! to a world-space ray, with field of view, aperture and focus
//! distance.

use vstd::prelude::*;
use crate::fixed::{SCALE, fp_ok, mul_fp, div_fp, tan_fp, fmul, fdiv, ftan};
use crate::vec3::{
    Vec3, Point3, vec_ok, vadd_s, vsub_s, vscale_s, vdiv_s, cross_s, unit_s, square_len_s,
};
use crate::ray::{Ray, ray_ok};
use crate::rng::Rng;

verus! {

/// Radians per degree, in fixed point.
pub const RAD_PER_DEG: i64 = 17_453;

/// User-facing camera parameters: vertical field of view in degrees,
/// lens diameter, and distance to the focal plane.
#[derive(Clone, Copy, PartialEq, Eq, Structural, Debug)]
pub struct CameraSettings {
    pub fov: i64,
    pub aperture: i64,
    pub focus_dist: i64,
}

pub open spec fn settings_ok(s: CameraSettings) -> bool {
    fp_ok(s.fov as int) && fp_ok(s.aperture as int) && fp_ok(s.focus_dist as int)
}

impl CameraSettings {
    /// A ninety-degree field of view, a small aperture, and a focal
    /// plane ten units out.
    pub fn new_default() -> (r: CameraSettings)
        ensures
            r.fov == 90 * SCALE,
            r.aperture == SCALE / 10,
            r.focus_dist == 10 * SCALE,
            settings_ok(r),
    {
        CameraSettings { fov: 90 * SCALE, aperture: SCALE / 10, focus_dist: 10 * SCALE }
    }

    pub fn new(fov: i64, aperture: i64, focus_dist: i64) -> (r: CameraSettings)
        requires
            fp_ok(fov as int),
            fp_ok(aperture as int),
            fp_ok(focus_dist as int),
        ensures
            r == (CameraSettings { fov, aperture, focus_dist }),
    {
        CameraSettings { fov, aperture, focus_dist }
    }
}

/// The derived camera frame: an orthonormal-by-construction basis,
/// the viewport spans, the viewport's lower-left corner and the lens
/// radius, all recomputed deterministically by `update`.
#[derive(Clone, Copy, PartialEq, Eq, Structural, Debug)]
pub struct Camera {
    pub origin: Point3,
    pub lower_left: Point3,
    pub horizontal: Vec3,
    pub vertical: Vec3,
    pub view_forward: Vec3,
    pub view_right: Vec3,
    pub view_up: Vec3,
    pub lens_radius: i64,
}

pub open spec fn camera_ok(c: Camera) -> bool {
    vec_ok(c.origin) && vec_ok(c.lower_left) && vec_ok(c.horizontal) && vec_ok(c.vertical)
        && vec_ok(c.view_forward) && vec_ok(c.view_right) && vec_ok(c.view_up) && fp_ok(
        c.lens_radius as int,
    )
}

/// The tangent of half the field of view, after converting degrees to
/// radians.
pub open spec fn half_fov_tan_s(fov: int) -> int {
    tan_fp(mul_fp(mul_fp(fov, RAD_PER_DEG as int), 500_000))
}

/// The camera frame that `update` derives from a viewpoint, a target,
/// an aspect ratio and the settings.
pub open spec fn camera_updated_s(
    look_from: Point3,
    look_to: Point3,
    aspect_ratio: int,
    settings: CameraSettings,
) -> Camera {
    let viewport_height = mul_fp(2_000_000, half_fov_tan_s(settings.fov as int));
    let viewport_width = mul_fp(aspect_ratio, viewport_height);
    let world_up = Vec3 { x: 0i64, y: SCALE, z: 0i64 };
    let forward = unit_s(vsub_s(look_from, look_to));
    let right = unit_s(cross_s(world_up, forward));
    let up = cross_s(forward, right);
    let horizontal = vscale_s(vscale_s(right, viewport_width), settings.focus_dist as int);
    let vertical = vscale_s(vscale_s(up, viewport_height), settings.focus_dist as int);
    Camera {
        origin: look_from,
        lower_left: vsub_s(
            vsub_s(vsub_s(look_from, vdiv_s(horizontal, 2_000_000)), vdiv_s(vertical, 2_000_000)),
            vscale_s(forward, settings.focus_dist as int),
        ),
        horizontal,
        vertical,
        view_forward: forward,
        view_right: right,
        view_up: up,
        lens_radius: div_fp(settings.aperture as int, 2_000_000) as i64,
    }
}

/// The ray `get_ray` builds for viewport coordinates `(u, v)` and a
/// given lens-disk sample. Kept opaque: callers hand rays onward and
/// never need the construction itself.
#[verifier::opaque]
pub open spec fn camera_ray_s(c: Camera, u: int, v: int, disk: Vec3) -> Ray {
    let rand_disk = vscale_s(disk, c.lens_radius as int);
    let offset = vadd_s(vscale_s(c.view_right, rand_disk.x as int), vscale_s(c.view_up, rand_disk.y as int));
    Ray {
        origin: vadd_s(c.origin, offset),
        direction: vsub_s(
            vsub_s(
                vadd_s(vadd_s(c.lower_left, vscale_s(c.horizontal, u)), vscale_s(c.vertical, v)),
                c.origin,
            ),
            offset,
        ),
    }
}

impl Camera {
    /// The frame of an axis-aligned default camera at the origin.
    pub fn new_default() -> (r: Camera)
        ensures
            r == default_camera_s(),
            camera_ok(r),
    {
        Camera {
            origin: Point3::new(0, 0, 0),
            lower_left: Point3::new(-SCALE, -SCALE, -SCALE),
            horizontal: Vec3::new(2 * SCALE, 0, 0),
            vertical: Vec3::new(0, 2 * SCALE, 0),
            view_forward: Vec3::new(0, 0, SCALE),
            view_right: Vec3::new(SCALE, 0, 0),
            view_up: Vec3::new(0, SCALE, 0),
            lens_radius: SCALE / 10 / 2,
        }
    }

    /// A camera derived from viewpoint, target, aspect ratio and
    /// settings.
    pub fn new(look_from: Point3, look_to: Point3, aspect_ratio: i64, settings: CameraSettings) -> (r:
        Camera)
        requires
            vec_ok(look_from),
            vec_ok(look_to),
            fp_ok(aspect_ratio as int),
            settings_ok(settings),
        ensures
            r == camera_updated_s(look_from, look_to, aspect_ratio as int, settings),
            camera_ok(r),
    {
        let mut new_camera: Camera = Camera::new_default();
        new_camera.update(look_from, look_to, aspect_ratio, settings);
        new_camera
    }

    /// Recompute every derived field from the given viewpoint, target,
    /// aspect ratio and settings; the camera keeps no other state.
    pub fn update(
        &mut self,
        look_from: Point3,
        look_to: Point3,
        aspect_ratio: i64,
        settings: CameraSettings,
    )
        requires
            vec_ok(look_from),
            vec_ok(look_to),
            fp_ok(aspect_ratio as int),
            settings_ok(settings),
        ensures
            *final(self) == camera_updated_s(look_from, look_to, aspect_ratio as int, settings),
            camera_ok(*final(self)),
    {
        let theta: i64 = fmul(settings.fov, RAD_PER_DEG);
        let h: i64 = ftan(fmul(theta, 500_000));

        let viewport_height: i64 = fmul(2_000_000, h);
        let viewport_width: i64 = fmul(aspect_ratio, viewport_height);

        self.view_up = Vec3::new(0, SCALE, 0);
        self.view_forward = look_from.sub(&look_to).get_normal();
        self.view_right = Vec3::cross(&self.view_up, &self.view_forward).get_normal();
        self.view_up = Vec3::cross(&self.view_forward, &self.view_right);

        self.origin = look_from;
        self.horizontal = self.view_right.mul_scalar(viewport_width).mul_scalar(
            settings.focus_dist,
        );
        self.vertical = self.view_up.mul_scalar(viewport_height).mul_scalar(settings.focus_dist);
        self.lower_left = self.origin.sub(&self.horizontal.div_scalar(2_000_000)).sub(
            &self.vertical.div_scalar(2_000_000),
        ).sub(&self.view_forward.mul_scalar(settings.focus_dist));
        self.lens_radius = fdiv(settings.aperture, 2_000_000);
    }

    /// The ray through viewport coordinates `(u, v)`, its origin
    /// jittered across the lens disk for depth of field.
    pub fn get_ray(&self, u: i64, v: i64, rng: &mut Rng) -> (r: Ray)
        requires
            camera_ok(*self),
            fp_ok(u as int),
            fp_ok(v as int),
        ensures
            ray_ok(r),
            exists|disk: Vec3|
                {
                    &&& vec_ok(disk)
                    &&& disk.z == 0
                    &&& #[trigger] square_len_s(disk) < SCALE
                    &&& r == camera_ray_s(*self, u as int, v as int, disk)
                },
    {
        let disk_sample: Vec3 = Vec3::rand_in_unit_disk(rng);
        let rand_disk: Vec3 = disk_sample.mul_scalar(self.lens_radius);
        let offset: Vec3 = self.view_right.mul_scalar(rand_disk.x).add(
            &self.view_up.mul_scalar(rand_disk.y),
        );

        let result: Ray = Ray::new(
            self.origin.add(&offset),
            self.lower_left.add(&self.horizontal.mul_scalar(u)).add(
                &self.vertical.mul_scalar(v),
            ).sub(&self.origin).sub(&offset),
        );
        proof {
            reveal(camera_ray_s);
            assert(vec_ok(disk_sample) && disk_sample.z == 0 && square_len_s(disk_sample) < SCALE
                && result == camera_ray_s(*self, u as int, v as int, disk_sample));
        }
        result
    }
}

/// The default camera frame: axis aligned at the origin, a two-unit
/// viewport one unit out.
pub open spec fn default_camera_s() -> Camera {
    Camera {
        origin: Vec3 { x: 0i64, y: 0i64, z: 0i64 },
        lower_left: Vec3 { x: (-SCALE) as i64, y: (-SCALE) as i64, z: (-SCALE) as i64 },
        horizontal: Vec3 { x: (2 * SCALE) as i64, y: 0i64, z: 0i64 },
        vertical: Vec3 { x: 0i64, y: (2 * SCALE) as i64, z: 0i64 },
        view_forward: Vec3 { x: 0i64, y: 0i64, z: SCALE },
        view_right: Vec3 { x: SCALE, y: 0i64, z: 0i64 },
        view_up: Vec3 { x: 0i64, y: SCALE, z: 0i64 },
        lens_radius: (SCALE / 10 / 2) as i64,
    }
}

} // verus!
