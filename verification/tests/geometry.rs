use raytracer_rs::fixed::{SCALE, FP_MAX};
use raytracer_rs::vec3::Vec3;
use raytracer_rs::ray::Ray;
use raytracer_rs::material::{Material, Lambertian, ErrorMat};
use raytracer_rs::object::Sphere;
use raytracer_rs::world::World;
use raytracer_rs::rng::Rng;

fn gray() -> Material {
    Material::Lambertian(Lambertian::new(Vec3::new(500_000, 500_000, 500_000)))
}

#[test]
fn sphere_center_ray_hits_front_face() {
    // a ray from the origin through the centre of a sphere of radius
    // one half at z == -1 hits at t == 0.5 with normal (0, 0, 1)
    let sphere = Sphere::new(Vec3::new(0, 0, -SCALE), 500_000, gray());
    let ray = Ray::new(Vec3::new(0, 0, 0), Vec3::new(0, 0, -SCALE));
    let record = sphere.hit(&ray, 100, FP_MAX).unwrap();
    assert_eq!(record.weight, 500_000);
    assert!(record.is_front_face);
    assert_eq!((record.normal.x, record.normal.y, record.normal.z), (0, 0, SCALE));
    assert_eq!((record.point.x, record.point.y, record.point.z), (0, 0, -500_000));
    assert!(matches!(record.material, Material::Lambertian(_)));
}

#[test]
fn sphere_behind_ray_misses() {
    let sphere = Sphere::new(Vec3::new(0, 0, -SCALE), 500_000, gray());
    let ray = Ray::new(Vec3::new(0, 0, 0), Vec3::new(0, 0, SCALE));
    assert_eq!(sphere.hit(&ray, 100, FP_MAX).err(), Some(()));
}

#[test]
fn hit_parameter_stays_in_interval() {
    let sphere = Sphere::new(Vec3::new(0, 0, -SCALE), 500_000, gray());
    let ray = Ray::new(Vec3::new(0, 0, 0), Vec3::new(0, 0, -SCALE));
    let t_min: i64 = 100;
    let t_max: i64 = 2 * SCALE;
    let record = sphere.hit(&ray, t_min, t_max).unwrap();
    assert!(t_min <= record.weight && record.weight <= t_max);
    // an interval that excludes both roots yields a miss
    assert!(sphere.hit(&ray, 100, 400_000).is_err());
    // an interval past the near root still finds the far root
    let far = sphere.hit(&ray, 600_000, FP_MAX).unwrap();
    assert_eq!(far.weight, 1_500_000);
    assert!(!far.is_front_face);
}

#[test]
fn hit_points_lie_on_the_sphere_surface() {
    // for many rays the reported hit point sits on the sphere within
    // the rounding of the fixed-point quadratic
    let center = Vec3::new(300_000, -200_000, -2_500_000);
    let radius: i64 = 800_000;
    let sphere = Sphere::new(center, radius, gray());
    let mut rng = Rng::new(31);
    let mut hits = 0;
    let mut i = 0;
    while i < 200 {
        let jitter = Vec3::rand_range((-300_000, 300_000), &mut rng);
        let direction = center.add(&jitter).get_normal();
        let ray = Ray::new(Vec3::new(0, 0, 0), direction);
        if let Ok(record) = sphere.hit(&ray, 100, FP_MAX) {
            hits += 1;
            let distance = record.point.sub(&center).length();
            assert!(
                (distance - radius).abs() < 5_000,
                "distance {distance} vs radius {radius}"
            );
            assert!(100 <= record.weight && record.weight <= FP_MAX);
        }
        i += 1;
    }
    assert!(hits > 150);
}

#[test]
fn world_returns_closest_hit() {
    let near = Sphere::new(Vec3::new(0, 0, -SCALE), 500_000, gray());
    let far = Sphere::new(Vec3::new(0, 0, -2 * SCALE), 500_000, gray());
    let ray = Ray::new(Vec3::new(0, 0, 0), Vec3::new(0, 0, -SCALE));

    let mut world = World::new(near);
    world.add_object(far);
    let record = world.world_hit(&ray, 100, FP_MAX).unwrap();
    assert_eq!(record.weight, 500_000);
}

#[test]
fn world_hit_is_order_independent() {
    let near = Sphere::new(Vec3::new(0, 0, -SCALE), 500_000, gray());
    let far = Sphere::new(Vec3::new(0, 0, -2 * SCALE), 500_000, gray());
    let ray = Ray::new(Vec3::new(0, 0, 0), Vec3::new(0, 0, -SCALE));

    let mut ordered = World::new(near);
    ordered.add_object(far);
    let mut reversed = World::new(far);
    reversed.add_object(near);

    let a = ordered.world_hit(&ray, 100, FP_MAX).unwrap();
    let b = reversed.world_hit(&ray, 100, FP_MAX).unwrap();
    assert_eq!(a.weight, b.weight);
    assert_eq!((a.point.x, a.point.y, a.point.z), (b.point.x, b.point.y, b.point.z));
}

#[test]
fn empty_world_misses() {
    let world = World::new_default();
    let ray = Ray::new(Vec3::new(0, 0, 0), Vec3::new(0, 0, -SCALE));
    assert!(world.world_hit(&ray, 100, FP_MAX).is_err());
}

#[test]
fn world_clear_removes_objects() {
    let mut world = World::new(Sphere::new(Vec3::new(0, 0, -SCALE), 500_000, gray()));
    world.clear_all_objects();
    let ray = Ray::new(Vec3::new(0, 0, 0), Vec3::new(0, 0, -SCALE));
    assert!(world.world_hit(&ray, 100, FP_MAX).is_err());
}

#[test]
fn ray_point_evaluation() {
    let ray = Ray::new(Vec3::new(1_000_000, 0, 0), Vec3::new(0, 2_000_000, 0));
    let p = ray.get_point(500_000);
    assert_eq!((p.x, p.y, p.z), (1_000_000, 1_000_000, 0));
}

#[test]
fn default_sphere_uses_error_material() {
    let sphere = Sphere::new_default();
    assert_eq!(sphere.radius, 0);
    assert!(matches!(sphere.material, Material::Error(ErrorMat {})));
}
