use raytracer_rs::fixed::SCALE;
use raytracer_rs::vec3::Vec3;
use raytracer_rs::rng::Rng;
use raytracer_rs::ray::Ray;
use raytracer_rs::world::World;
use raytracer_rs::camera::Camera;
use raytracer_rs::worker::{RayWorker, RayWorkerSettings};

fn sky_worker(width: usize, height: usize, band: (usize, usize), samples: u32) -> RayWorker {
    let settings = RayWorkerSettings {
        screen_size: (width, height),
        bound_y: band,
        sample_count: samples,
        bound_limit: 4,
    };
    RayWorker::new(World::new_default(), Camera::new_default(), settings)
}

#[test]
fn worker_buffers_match_band_size() {
    let worker = sky_worker(4, 4, (1, 3), 2);
    assert_eq!(worker.accumulated_buffer.len(), 8);
    assert_eq!(worker.srgb_buffer.len(), 8);
}

#[test]
fn worker_emits_exactly_sample_count_packets() {
    let mut worker = sky_worker(4, 4, (1, 3), 3);
    let mut rng = Rng::new(42);
    let packets = worker.run(&mut rng);
    assert_eq!(packets.len(), 3);
    for packet in packets.iter() {
        assert_eq!(packet.bound_y, (1, 3));
        assert_eq!(packet.srgb_buffer.len(), 8);
    }
}

#[test]
fn empty_band_worker_emits_empty_packets() {
    let mut worker = sky_worker(4, 4, (2, 2), 2);
    let mut rng = Rng::new(1);
    let packets = worker.run(&mut rng);
    assert_eq!(packets.len(), 2);
    assert_eq!(packets[0].srgb_buffer.len(), 0);
}

#[test]
fn sky_accumulation_is_progressive_and_converges() {
    // against an empty world every sample sees the sky, whose blue
    // channel is exactly one everywhere; the running sum therefore
    // grows by exactly one unit per pass and the displayed blue
    // channel stays saturated from the first pass on
    let mut worker = sky_worker(2, 2, (0, 2), 1);
    let mut rng = Rng::new(2024);
    let passes: u32 = 300;
    let mut pass: u32 = 1;
    while pass <= passes {
        worker.render_sample_pass(pass, &mut rng);
        let expected_sum = (pass as i64) * SCALE;
        for color in worker.accumulated_buffer.iter() {
            assert_eq!(color.z, expected_sum);
            assert!(0 <= color.x && color.x <= expected_sum);
        }
        for color in worker.srgb_buffer.iter() {
            assert_eq!(color.z, SCALE);
        }
        pass += 1;
    }
    // the red channel of the running average converges on the
    // analytic gradient, computed here in double precision by
    // integrating the blend over each pixel's jitter square
    let mut py: usize = 0;
    while py < 2 {
        let mut px: usize = 0;
        while px < 2 {
            let expected = expected_display_red(px, py);
            let got = worker.srgb_buffer[2 * py + px].x as f64 / 1.0e6;
            assert!(
                (got - expected).abs() < 0.03,
                "pixel ({px}, {py}): got {got}, expected {expected}"
            );
            px += 1;
        }
        py += 1;
    }
}

/// The display value the red channel converges to for a pixel of the
/// two-by-two sky-only render: the square root of the mean sky red
/// over the pixel's jitter square.
fn expected_display_red(px: usize, py: usize) -> f64 {
    let steps = 200;
    let mut sum = 0.0f64;
    let mut i = 0;
    while i < steps {
        let mut j = 0;
        while j < steps {
            let u = px as f64 + (i as f64 + 0.5) / steps as f64;
            let v = py as f64 + (j as f64 + 0.5) / steps as f64;
            let dx = -1.0 + 2.0 * u;
            let dy = -1.0 + 2.0 * v;
            let dz = -1.0f64;
            let len = (dx * dx + dy * dy + dz * dz).sqrt();
            let t = 0.5 * (dy / len + 1.0);
            sum += (1.0 - t) + 0.5 * t;
            j += 1;
        }
        i += 1;
    }
    (sum / (steps * steps) as f64).sqrt()
}

#[test]
fn ray_color_of_empty_world_is_sky() {
    let worker = sky_worker(4, 4, (0, 4), 1);
    let mut rng = Rng::new(8);
    let ray = Ray::new(Vec3::new(0, 0, 0), Vec3::new(0, 0, -SCALE));
    let color = worker.ray_color(&ray, &mut rng);
    assert_eq!((color.x, color.y, color.z), (750_000, 850_000, SCALE));
}

#[test]
fn zero_bounce_budget_sees_only_sky() {
    let settings = RayWorkerSettings {
        screen_size: (4, 4),
        bound_y: (0, 4),
        sample_count: 1,
        bound_limit: 0,
    };
    let worker = RayWorker::new(World::new_default(), Camera::new_default(), settings);
    let mut rng = Rng::new(8);
    let ray = Ray::new(Vec3::new(0, 0, 0), Vec3::new(0, SCALE, 0));
    let color = worker.reflect_ray_recursive(&ray, 0, &mut rng);
    assert_eq!((color.x, color.y, color.z), (500_000, 700_000, SCALE));
}
