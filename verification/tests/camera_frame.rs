use raytracer_rs::fixed::SCALE;
use raytracer_rs::vec3::Vec3;
use raytracer_rs::rng::Rng;
use raytracer_rs::camera::{Camera, CameraSettings};

#[test]
fn default_settings() {
    let settings = CameraSettings::new_default();
    assert_eq!(settings.fov, 90 * SCALE);
    assert_eq!(settings.aperture, SCALE / 10);
    assert_eq!(settings.focus_dist, 10 * SCALE);
}

#[test]
fn update_derives_frame_from_viewpoint() {
    let look_from = Vec3::new(0, 0, SCALE);
    let look_to = Vec3::new(0, 0, 0);
    let settings = CameraSettings::new(90 * SCALE, 200_000, SCALE);
    let camera = Camera::new(look_from, look_to, SCALE, settings);
    assert_eq!((camera.origin.x, camera.origin.y, camera.origin.z), (0, 0, SCALE));
    // looking down -Z, the derived basis is axis aligned
    assert_eq!((camera.view_forward.x, camera.view_forward.y, camera.view_forward.z), (0, 0, SCALE));
    assert_eq!((camera.view_right.x, camera.view_right.y, camera.view_right.z), (SCALE, 0, 0));
    assert_eq!((camera.view_up.x, camera.view_up.y, camera.view_up.z), (0, SCALE, 0));
    // the lens radius is half the aperture
    assert_eq!(camera.lens_radius, 100_000);
}

#[test]
fn update_is_deterministic() {
    let look_from = Vec3::new(13 * SCALE, 2 * SCALE, 3 * SCALE);
    let look_to = Vec3::new(0, 0, 0);
    let settings = CameraSettings::new(20 * SCALE, 100_000, 10 * SCALE);
    let a = Camera::new(look_from, look_to, 1_777_777, settings);
    let b = Camera::new(look_from, look_to, 1_777_777, settings);
    assert_eq!((a.lower_left.x, a.lower_left.y, a.lower_left.z), (b.lower_left.x, b.lower_left.y, b.lower_left.z));
    assert_eq!((a.horizontal.x, a.horizontal.y, a.horizontal.z), (b.horizontal.x, b.horizontal.y, b.horizontal.z));
    assert_eq!((a.vertical.x, a.vertical.y, a.vertical.z), (b.vertical.x, b.vertical.y, b.vertical.z));
}

#[test]
fn get_ray_aims_into_viewport() {
    let camera = Camera::new_default();
    let mut rng = Rng::new(21);
    // through the screen centre the default camera looks down -Z with
    // only the small lens jitter off axis
    let ray = camera.get_ray(500_000, 500_000, &mut rng);
    assert!(ray.direction.z <= -900_000);
    assert!(ray.direction.x.abs() <= 200_000);
    assert!(ray.direction.y.abs() <= 200_000);
}
