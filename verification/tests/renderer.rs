use raytracer_rs::fixed::SCALE;
use raytracer_rs::vec3::Vec3;
use raytracer_rs::rng::Rng;
use raytracer_rs::material::{Material, Lambertian};
use raytracer_rs::object::Sphere;
use raytracer_rs::world::World;
use raytracer_rs::camera::Camera;
use raytracer_rs::worker::{RayWorker, RayResult};
use raytracer_rs::raytracer::{
    RayTracer, RayTracerBuffer, RayTracerSettings, RayTracerState, TickStatus, partition_bands,
};

#[test]
fn bands_split_evenly() {
    let bands = partition_bands(100, 4);
    assert_eq!(bands.len(), 4);
    assert_eq!(bands[0], (0, 25));
    assert_eq!(bands[1], (25, 50));
    assert_eq!(bands[2], (50, 75));
    assert_eq!(bands[3], (75, 100));
}

#[test]
fn last_band_absorbs_remainder() {
    let bands = partition_bands(100, 3);
    assert_eq!(bands.len(), 3);
    assert_eq!(bands[0], (0, 33));
    assert_eq!(bands[1], (33, 66));
    assert_eq!(bands[2], (66, 100));
}

#[test]
fn more_workers_than_rows() {
    let bands = partition_bands(2, 4);
    assert_eq!(bands.len(), 4);
    assert_eq!(bands[3], (0, 2));
}

#[test]
fn every_row_in_exactly_one_band() {
    for (height, workers) in [(100usize, 4usize), (100, 3), (7, 5), (1, 1), (16, 16)] {
        let bands = partition_bands(height, workers);
        for y in 0..height {
            let mut owners = 0;
            for band in bands.iter() {
                if band.0 <= y && y < band.1 {
                    owners += 1;
                }
            }
            assert_eq!(owners, 1, "row {y} of height {height} with {workers} workers");
        }
    }
}

#[test]
fn buffer_resize_zeroes() {
    let mut buffer = RayTracerBuffer { buffer: Vec::new(), buffer_size: (0, 0), buffer_byte_size: 0 };
    buffer.resize((3, 2));
    assert_eq!(buffer.get_byte_size(), 18);
    assert_eq!(buffer.get_buffer_size(), (3, 2));
    assert!(buffer.get_buffer().iter().all(|b| *b == 0));
}

#[test]
fn set_buffer_writes_flipped_row() {
    let mut buffer = RayTracerBuffer { buffer: Vec::new(), buffer_size: (0, 0), buffer_byte_size: 0 };
    buffer.resize((2, 2));
    // full red, no green, half blue at render row 0 lands on display row 1
    let color = Vec3::new(SCALE, 0, 500_000);
    buffer.set_buffer((0, 0), &color, true);
    let bytes = buffer.get_buffer();
    assert_eq!(bytes[6], 255);
    assert_eq!(bytes[7], 0);
    assert_eq!(bytes[8], 128);
    // every other pixel stays zero
    assert_eq!(&bytes[0..6], &[0, 0, 0, 0, 0, 0]);
    assert_eq!(&bytes[9..12], &[0, 0, 0]);
}

#[test]
fn set_buffer_without_flip_and_saturation() {
    let mut buffer = RayTracerBuffer { buffer: Vec::new(), buffer_size: (0, 0), buffer_byte_size: 0 };
    buffer.resize((2, 2));
    // channels past full scale clamp to 255, negative channels to 0
    let color = Vec3::new(2 * SCALE, -SCALE, 250_000);
    buffer.set_buffer((1, 0), &color, false);
    let bytes = buffer.get_buffer();
    assert_eq!(bytes[3], 255);
    assert_eq!(bytes[4], 0);
    assert_eq!(bytes[5], 64);
}

#[test]
fn new_renderer_is_idle() {
    let rt = RayTracer::new((8, 8), 2);
    assert!(matches!(rt.get_raytracer_state(), RayTracerState::Idle));
    assert!(!rt.is_buffer_updated());
    assert_eq!(rt.get_buffer_size(), (8, 8));
    assert_eq!(rt.buffer.get_byte_size(), 8 * 8 * 3);
}

#[test]
fn run_builds_scene_and_goes_working() {
    let mut rt = RayTracer::new((8, 8), 2);
    let work = rt.run();
    assert!(matches!(rt.get_raytracer_state(), RayTracerState::Working));
    assert!(work.len() >= 1);
    // the procedural scene: ground first, three feature spheres last
    let objects = &rt.world.objects;
    assert!(objects.len() >= 4);
    assert_eq!(objects[0].radius, 1000 * SCALE);
    assert_eq!(objects[0].center.y, -1000 * SCALE);
    let glass = &objects[objects.len() - 3];
    assert!(matches!(glass.material, Material::Dielectric(_)));
    assert_eq!(glass.center.x, 0);
    let diffuse = &objects[objects.len() - 2];
    assert!(matches!(diffuse.material, Material::Lambertian(_)));
    assert_eq!(diffuse.center.x, -4 * SCALE);
    let metal = &objects[objects.len() - 1];
    assert!(matches!(metal.material, Material::Metal(_)));
    assert_eq!(metal.center.x, 4 * SCALE);
    // every grid sphere rests on the ground plane at a fifth of a unit
    for sphere in &objects[1..objects.len() - 3] {
        assert_eq!(sphere.radius, 200_000);
        assert_eq!(sphere.center.y, 200_000);
    }
    // a second run command while working is ignored
    let again = rt.run();
    assert_eq!(again.len(), 0);
}

#[test]
fn scene_generation_is_deterministic() {
    let mut rt1 = RayTracer::new((8, 8), 2);
    let mut rt2 = RayTracer::new((8, 8), 2);
    rt1.build_world();
    rt2.build_world();
    assert_eq!(rt1.world.objects.len(), rt2.world.objects.len());
    for (a, b) in rt1.world.objects.iter().zip(rt2.world.objects.iter()) {
        assert_eq!(a.center.x, b.center.x);
        assert_eq!(a.center.z, b.center.z);
        assert_eq!(a.radius, b.radius);
    }
}

#[test]
fn forty_packets_complete_a_four_worker_render() {
    // four workers at ten samples each owe exactly forty packets; the
    // renderer returns to Idle only once all forty have arrived
    let mut rt = RayTracer::new((4, 100), 2);
    rt.settings = RayTracerSettings { sample_count: 10, bound_limit: 5, receive_limit: 10 };
    let work = rt.start_render(4);
    assert_eq!(work.len(), 4);
    assert!(matches!(rt.get_raytracer_state(), RayTracerState::Working));
    assert_eq!(work[0].bound_y, (0, 25));
    assert_eq!(work[3].bound_y, (75, 100));

    // render the four bands for real against a single-sphere scene
    let mut scene = World::new_default();
    scene.add_object(Sphere::new(
        Vec3::new(0, 0, -2 * SCALE),
        500_000,
        Material::Lambertian(Lambertian::new(Vec3::new(500_000, 500_000, 500_000))),
    ));
    let mut packets: Vec<RayResult> = Vec::new();
    for (index, settings) in work.iter().enumerate() {
        let mut worker = RayWorker::new(scene.clone(), Camera::new_default(), *settings);
        let mut rng = Rng::new(1000 + index as u64);
        let mut produced = worker.run(&mut rng);
        assert_eq!(produced.len(), 10);
        packets.append(&mut produced);
    }
    assert_eq!(packets.len(), 40);

    // drain in batches of at most receive_limit
    let mut fed = 0;
    while fed < packets.len() {
        let take = (packets.len() - fed).min(10);
        let batch: Vec<RayResult> = packets[fed..fed + take].iter().cloned().collect();
        let status = rt.tick(&batch);
        fed += take;
        assert_eq!(status, TickStatus::Progress((fed as u64) * 10_000 / 40));
        assert!(matches!(rt.get_raytracer_state(), RayTracerState::Working));
    }
    assert!(rt.is_buffer_updated());

    // with all forty packets received the next tick finishes the render
    let status = rt.tick(&Vec::new());
    assert_eq!(status, TickStatus::Finished);
    assert!(matches!(rt.get_raytracer_state(), RayTracerState::Idle));
    assert_eq!(rt.received_packet, 0);
    assert_eq!(rt.worker_nums, 0);

    // the merged buffer is no longer blank
    let consumed = rt.consume_buffer();
    assert!(consumed.get_buffer().iter().any(|b| *b != 0));
    assert!(!rt.is_buffer_updated());
}

#[test]
fn idle_tick_does_nothing() {
    let mut rt = RayTracer::new((4, 4), 2);
    assert_eq!(rt.tick(&Vec::new()), TickStatus::NotWorking);
    assert!(matches!(rt.get_raytracer_state(), RayTracerState::Idle));
}
