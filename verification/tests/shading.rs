use raytracer_rs::fixed::{SCALE, FP_MAX};
use raytracer_rs::vec3::Vec3;
use raytracer_rs::ray::Ray;
use raytracer_rs::rng::Rng;
use raytracer_rs::material::{Material, Lambertian, Metal, Dielectric, ErrorMat};
use raytracer_rs::object::{Sphere, HitRecord};
use raytracer_rs::world::World;

fn record_at_origin() -> HitRecord {
    HitRecord {
        point: Vec3::new(0, 0, 0),
        normal: Vec3::new(0, SCALE, 0),
        weight: 500_000,
        is_front_face: true,
        material: Material::Error(ErrorMat::new_default()),
    }
}

#[test]
fn sky_gradient_at_screen_center() {
    // looking straight down -Z the blend sits halfway: 0.75 white
    // plus the light blue's half gives (0.75, 0.85, 1.0)
    let world = World::new_default();
    let ray = Ray::new(Vec3::new(0, 0, 0), Vec3::new(0, 0, -SCALE));
    let sky = world.get_sky_color(&ray);
    assert_eq!((sky.x, sky.y, sky.z), (750_000, 850_000, SCALE));
}

#[test]
fn sky_gradient_towards_zenith_is_light_blue() {
    let world = World::new_default();
    let ray = Ray::new(Vec3::new(0, 0, 0), Vec3::new(0, SCALE, 0));
    let sky = world.get_sky_color(&ray);
    assert_eq!((sky.x, sky.y, sky.z), (500_000, 700_000, SCALE));
}

#[test]
fn lambertian_always_scatters_with_albedo() {
    let albedo = Vec3::new(300_000, 400_000, 500_000);
    let material = Lambertian::new(albedo);
    let ray = Ray::new(Vec3::new(0, SCALE, 0), Vec3::new(0, -SCALE, 0));
    let record = record_at_origin();
    let mut rng = Rng::new(11);
    let result = material.scatter(&ray, &record, &mut rng).unwrap();
    assert_eq!(
        (result.attenuation.x, result.attenuation.y, result.attenuation.z),
        (300_000, 400_000, 500_000),
    );
    assert_eq!(
        (
            result.scattered_ray.origin.x,
            result.scattered_ray.origin.y,
            result.scattered_ray.origin.z,
        ),
        (0, 0, 0),
    );
    // the documented fallback keeps the direction well away from zero
    assert!(!result.scattered_ray.direction.is_near_zero());
}

#[test]
fn metal_clamps_fuzziness() {
    let shiny = Metal::new(Vec3::new(SCALE, SCALE, SCALE), 3 * SCALE);
    assert_eq!(shiny.fuzziness, SCALE);
    let matte = Metal::new(Vec3::new(SCALE, SCALE, SCALE), -5);
    assert_eq!(matte.fuzziness, 0);
}

#[test]
fn metal_scatter_reflects_from_hit_point() {
    let material = Metal::new(Vec3::new(900_000, 900_000, 900_000), 0);
    let ray = Ray::new(Vec3::new(-SCALE, SCALE, 0), Vec3::new(SCALE, -SCALE, 0));
    let record = record_at_origin();
    let mut rng = Rng::new(3);
    let result = material.scatter(&ray, &record, &mut rng).unwrap();
    assert_eq!(result.attenuation.x, 900_000);
    // with zero fuzz the scattered direction is the normalised mirror
    // of the incoming direction, which points up and to the right
    assert!(result.scattered_ray.direction.x > 0);
    assert!(result.scattered_ray.direction.y > 0);
    assert_eq!(result.scattered_ray.direction.z, 0);
}

#[test]
fn dielectric_reflectance_at_normal_incidence() {
    // Schlick at cos == 1 for index 1.5 gives ((1-1.5)/(1+1.5))^2 == 0.04
    assert_eq!(Dielectric::reflectance(SCALE, 1_500_000), 40_000);
}

#[test]
fn dielectric_scatter_is_white() {
    let material = Dielectric::new(1_500_000);
    let ray = Ray::new(Vec3::new(0, SCALE, 0), Vec3::new(0, -SCALE, 0));
    let record = record_at_origin();
    let mut rng = Rng::new(5);
    let result = material.scatter(&ray, &record, &mut rng).unwrap();
    assert_eq!(
        (result.attenuation.x, result.attenuation.y, result.attenuation.z),
        (SCALE, SCALE, SCALE),
    );
}

#[test]
fn refract_straight_through() {
    // a ray entering along the normal passes straight through for
    // any refraction ratio
    let v = Vec3::new(0, -SCALE, 0);
    let n = Vec3::new(0, SCALE, 0);
    let r = v.refract(&n, 500_000);
    assert_eq!((r.x, r.y, r.z), (0, -SCALE, 0));
}

#[test]
fn dispatch_succeeds_for_real_materials() {
    let ray = Ray::new(Vec3::new(0, SCALE, 0), Vec3::new(0, -SCALE, 0));
    let record = record_at_origin();
    let mut rng = Rng::new(17);
    let materials = [
        Material::Lambertian(Lambertian::new(Vec3::new(500_000, 500_000, 500_000))),
        Material::Metal(Metal::new(Vec3::new(500_000, 500_000, 500_000), 100_000)),
        Material::Dielectric(Dielectric::new(1_500_000)),
    ];
    for material in materials {
        let result = material.scatter(&ray, &record, &mut rng).unwrap();
        assert_eq!(
            (
                result.scattered_ray.origin.x,
                result.scattered_ray.origin.y,
                result.scattered_ray.origin.z,
            ),
            (0, 0, 0),
        );
    }
}

#[test]
fn error_material_absorbs() {
    let material = ErrorMat::new_default();
    let ray = Ray::new(Vec3::new(0, SCALE, 0), Vec3::new(0, -SCALE, 0));
    let record = record_at_origin();
    assert!(material.scatter(&ray, &record).is_none());
    let mut rng = Rng::new(5);
    let dispatched = Material::Error(ErrorMat::new_default());
    assert!(dispatched.scatter(&ray, &record, &mut rng).is_none());
}

#[test]
fn absorbed_ray_falls_back_to_sky() {
    // a scene whose only object absorbs every ray yields the sky
    let sphere = Sphere::new(
        Vec3::new(0, 0, -SCALE),
        500_000,
        Material::Error(ErrorMat::new_default()),
    );
    let world = World::new(sphere);
    let ray = Ray::new(Vec3::new(0, 0, 0), Vec3::new(0, 0, -SCALE));
    let record = world.world_hit(&ray, 100, FP_MAX).unwrap();
    let mut rng = Rng::new(1);
    assert!(record.material.scatter(&ray, &record, &mut rng).is_none());
}
