//! The renderer: the authoritative frame buffer, the band
//! partitioning of the image, and the Idle/Working state machine that
//! launches workers, merges their snapshots and reports progress.

use vstd::prelude::*;
use crate::fixed::{SCALE, fp_ok, mul_fp, div_fp, fmul, fdiv};
use crate::vec3::{Vec3, Color, Point3, vec_ok};
use crate::rng::Rng;
use crate::material::{Material, Lambertian, Metal, Dielectric};
use crate::object::Sphere;
use crate::world::{World, world_ok};
use crate::camera::{Camera, CameraSettings, camera_ok, camera_updated_s};
use crate::worker::{RayWorkerSettings, RayResult, worker_settings_ok, MAX_SCREEN_DIM};

verus! {

/// An event the renderer pushes to its embedding display: a new
/// title-bar message.
pub enum UserEvent {
    SetHeader(String),
}

/// The renderer is either waiting for a run command or rendering.
#[derive(Clone, Copy, PartialEq, Eq, Structural, Debug)]
pub enum RayTracerState {
    Idle,
    Working,
}

/// Renderer configuration: samples per pixel, the bounce limit of the
/// integrator, and how many packets one tick may drain.
#[derive(Clone, Copy, PartialEq, Eq, Structural, Debug)]
pub struct RayTracerSettings {
    pub sample_count: u32,
    pub bound_limit: u32,
    pub receive_limit: u32,
}

/// The authoritative RGB byte buffer and its dimensions.
#[derive(Debug)]
pub struct RayTracerBuffer {
    pub buffer: Vec<u8>,
    pub buffer_size: (usize, usize),
    pub buffer_byte_size: usize,
}

impl Clone for RayTracerBuffer {
    fn clone(&self) -> (r: Self)
        ensures
            r.buffer@ =~= self.buffer@,
            r.buffer_size == self.buffer_size,
            r.buffer_byte_size == self.buffer_byte_size,
    {
        RayTracerBuffer {
            buffer: self.buffer.clone(),
            buffer_size: self.buffer_size,
            buffer_byte_size: self.buffer_byte_size,
        }
    }
}

/// The buffer holds exactly three bytes per pixel and both dimensions
/// are bounded.
pub open spec fn buffer_ok(b: RayTracerBuffer) -> bool {
    &&& b.buffer_byte_size == b.buffer_size.0 * b.buffer_size.1 * 3
    &&& b.buffer@.len() == b.buffer_byte_size
    &&& b.buffer_size.0 <= MAX_SCREEN_DIM
    &&& b.buffer_size.1 <= MAX_SCREEN_DIM
}

/// First byte of the pixel at `(x, y)` in row-major RGB layout.
pub open spec fn byte_index_s(size: (usize, usize), x: int, y: int) -> int {
    (size.0 * y + x) * 3
}

/// The row a pixel lands on when the vertical axis is flipped from
/// bottom-up render space to top-down display space.
pub open spec fn flip_row_s(size: (usize, usize), y: int) -> int {
    size.1 - y - 1
}

/// One display byte of a colour channel: the channel scaled by 256,
/// truncated, and clamped to `[0, 255]`.
pub open spec fn byte_of_s(c: int) -> int {
    let scaled = mul_fp(c, 256_000_000);
    if scaled < 0 {
        0
    } else if scaled / (SCALE as int) > 255 {
        255
    } else {
        scaled / (SCALE as int)
    }
}

/// Byte indices of pixels within the image never collide.
pub proof fn lemma_byte_index_injective(size: (usize, usize), x1: int, y1: int, x2: int, y2: int)
    requires
        0 <= x1 < size.0,
        0 <= y1 < size.1,
        0 <= x2 < size.0,
        0 <= y2 < size.1,
        !(x1 == x2 && y1 == y2),
    ensures
        byte_index_s(size, x1, y1) + 3 <= byte_index_s(size, x2, y2) || byte_index_s(
            size,
            x2,
            y2,
        ) + 3 <= byte_index_s(size, x1, y1),
{
    let w = size.0 as int;
    assert((w * y1 + x1) + 1 <= (w * y2 + x2) || (w * y2 + x2) + 1 <= (w * y1 + x1))
        by (nonlinear_arith)
        requires
            0 <= x1 < w,
            0 <= x2 < w,
            0 <= y1,
            0 <= y2,
            !(x1 == x2 && y1 == y2),
    {
    }
    assert(((w * y1 + x1) + 1) * 3 <= (w * y2 + x2) * 3 || ((w * y2 + x2) + 1) * 3 <= (w * y1 + x1)
        * 3 || (w * y1 + x1) == (w * y2 + x2)) by (nonlinear_arith);
}

/// A pixel's bytes lie within a well-formed buffer.
pub proof fn lemma_byte_index_in_range(size: (usize, usize), x: int, y: int)
    requires
        0 <= x < size.0,
        0 <= y < size.1,
        size.0 <= MAX_SCREEN_DIM,
        size.1 <= MAX_SCREEN_DIM,
    ensures
        0 <= byte_index_s(size, x, y),
        byte_index_s(size, x, y) + 3 <= size.0 * size.1 * 3,
        size.0 * size.1 * 3 <= 0x3000_0000,
{
    let w = size.0 as int;
    let h = size.1 as int;
    assert(0 <= w * y + x && w * y + x + 1 <= w * h && w * h <= MAX_SCREEN_DIM * MAX_SCREEN_DIM)
        by (nonlinear_arith)
        requires
            0 <= x < w,
            0 <= y < h,
            w <= MAX_SCREEN_DIM,
            h <= MAX_SCREEN_DIM,
    {
    }
    assert((w * y + x) * 3 + 3 == (w * y + x + 1) * 3 && (w * y + x + 1) * 3 <= (w * h) * 3 && (w
        * h) * 3 <= 0x3000_0000) by (nonlinear_arith)
        requires
            0 <= w * y + x,
            w * y + x + 1 <= w * h,
            w * h <= 0x1000_0000,
    {
    }
}

impl RayTracerBuffer {
    /// Write one pixel. The colour's channels are scaled to display
    /// bytes; `flip_y` selects the mirrored row, converting bottom-up
    /// render space to top-down display space.
    pub fn set_buffer(&mut self, pos: (usize, usize), color: &Color, flip_y: bool)
        requires
            buffer_ok(*old(self)),
            pos.0 < old(self).buffer_size.0,
            pos.1 < old(self).buffer_size.1,
            vec_ok(*color),
        ensures
            buffer_ok(*final(self)),
            final(self).buffer_size == old(self).buffer_size,
            final(self).buffer_byte_size == old(self).buffer_byte_size,
            ({
                let row = if flip_y {
                    flip_row_s(old(self).buffer_size, pos.1 as int)
                } else {
                    pos.1 as int
                };
                let base = byte_index_s(old(self).buffer_size, pos.0 as int, row);
                final(self).buffer@ == old(self).buffer@.update(
                    base,
                    byte_of_s(color.x as int) as u8,
                ).update(base + 1, byte_of_s(color.y as int) as u8).update(
                    base + 2,
                    byte_of_s(color.z as int) as u8,
                )
            }),
    {
        let cur_y: usize = match flip_y {
            true => { self.buffer_size.1 - pos.1 - 1 },
            false => { pos.1 },
        };

        proof {
            lemma_byte_index_in_range(self.buffer_size, pos.0 as int, cur_y as int);
            assert(self.buffer_size.0 * cur_y + pos.0 <= self.buffer_size.0 * (cur_y as int)
                + pos.0) by (nonlinear_arith);
        }
        let index: usize = (self.buffer_size.0 * cur_y + pos.0) * 3;
        let bx: u8 = channel_byte(color.x);
        let by: u8 = channel_byte(color.y);
        let bz: u8 = channel_byte(color.z);
        self.buffer.set(index, bx);
        self.buffer.set(index + 1, by);
        self.buffer.set(index + 2, bz);
    }

    /// Clear the buffer to zero at the new dimensions; size
    /// bookkeeping and contents change together.
    pub fn resize(&mut self, new_size: (usize, usize))
        requires
            new_size.0 <= MAX_SCREEN_DIM,
            new_size.1 <= MAX_SCREEN_DIM,
        ensures
            buffer_ok(*final(self)),
            final(self).buffer_size == new_size,
            final(self).buffer_byte_size == new_size.0 * new_size.1 * 3,
            final(self).buffer@.len() == final(self).buffer_byte_size,
            forall|i: int| 0 <= i < final(self).buffer@.len() ==> final(self).buffer@[i] == 0u8,
    {
        proof {
            assert(new_size.0 * new_size.1 <= MAX_SCREEN_DIM * MAX_SCREEN_DIM) by (nonlinear_arith)
                requires
                    0 <= new_size.0 <= MAX_SCREEN_DIM,
                    0 <= new_size.1 <= MAX_SCREEN_DIM,
            {
            }
        }
        let new_byte_size: usize = new_size.0 * new_size.1 * 3;
        let mut fresh: Vec<u8> = Vec::new();
        let mut i: usize = 0;
        while i < new_byte_size
            invariant
                i <= new_byte_size,
                fresh@.len() == i,
                forall|j: int| 0 <= j < i ==> fresh@[j] == 0u8,
            decreases new_byte_size - i,
        {
            fresh.push(0);
            i = i + 1;
        }
        self.buffer = fresh;
        self.buffer_byte_size = new_byte_size;
        self.buffer_size = new_size;
    }

    pub fn get_buffer(&self) -> (r: &Vec<u8>)
        ensures
            r@ == self.buffer@,
    {
        &self.buffer
    }

    pub fn get_buffer_size(&self) -> (r: (usize, usize))
        ensures
            r == self.buffer_size,
    {
        self.buffer_size
    }

    pub fn get_byte_size(&self) -> (r: usize)
        ensures
            r == self.buffer_byte_size,
    {
        self.buffer_byte_size
    }
}

/// One display byte of one channel.
fn channel_byte(c: i64) -> (r: u8)
    requires
        fp_ok(c as int),
    ensures
        r == byte_of_s(c as int),
{
    let scaled: i64 = fmul(c, 256_000_000);
    if scaled < 0 {
        0
    } else {
        let stepped: i64 = scaled / SCALE;
        proof {
            vstd::arithmetic::div_mod::lemma_div_pos_is_pos(scaled as int, SCALE as int);
        }
        if stepped > 255 {
            255
        } else {
            stepped as u8
        }
    }
}

/// The bands cover `[0, height)` in order: the first starts at zero,
/// each begins where the one before ended, and the last ends at
/// `height`.
pub open spec fn bands_contiguous_s(bands: Seq<(usize, usize)>, height: int) -> bool {
    &&& bands.len() >= 1
    &&& bands[0].0 == 0
    &&& bands[bands.len() - 1].1 == height
    &&& forall|k: int| 0 <= k < bands.len() ==> (#[trigger] bands[k]).0 <= bands[k].1 <= height
    &&& forall|k: int| 0 <= k < bands.len() - 1 ==> (#[trigger] bands[k]).1 == bands[k + 1].0
}

/// Some band of the sequence covers row `y`.
pub open spec fn row_covered_s(bands: Seq<(usize, usize)>, y: int) -> bool {
    exists|k: int| 0 <= k < bands.len() && (#[trigger] bands[k]).0 <= y < bands[k].1
}

/// Split `[0, height)` into `worker_count` contiguous bands, one per
/// worker: each band gets `height / worker_count` rows and the last
/// absorbs the remainder. Every row lies in at least one band; by
/// `lemma_bands_disjoint` it lies in exactly one.
pub fn partition_bands(height: usize, worker_count: usize) -> (r: Vec<(usize, usize)>)
    requires
        worker_count >= 1,
        height <= MAX_SCREEN_DIM,
    ensures
        r@.len() == worker_count,
        bands_contiguous_s(r@, height as int),
        forall|y: int| 0 <= y < height ==> #[trigger] row_covered_s(r@, y),
        forall|k: int|
            0 <= k < r@.len() ==> (#[trigger] r@[k]).0 == k * (height as int
                / worker_count as int),
{
    let per_worker_y: usize = height / worker_count;
    let mut bands: Vec<(usize, usize)> = Vec::new();
    let mut prev_max_bound: usize = 0;
    let mut i: usize = 0;
    proof {
        lemma_partition_step(height as int, worker_count as int, 0);
    }
    while i < worker_count
        invariant
            worker_count >= 1,
            height <= MAX_SCREEN_DIM,
            per_worker_y == height as int / worker_count as int,
            i <= worker_count,
            bands@.len() == i,
            prev_max_bound == i * per_worker_y,
            prev_max_bound <= height,
            i < worker_count ==> prev_max_bound + per_worker_y <= height,
            i >= 1 ==> bands@[0].0 == 0,
            i >= 1 && i < worker_count ==> bands@[i - 1].1 == prev_max_bound,
            i == worker_count ==> bands@[i - 1].1 == height,
            forall|k: int| 0 <= k < i ==> (#[trigger] bands@[k]).0 == k * per_worker_y,
            forall|k: int| 0 <= k < i ==> (#[trigger] bands@[k]).0 <= bands@[k].1 <= height,
            forall|k: int| 0 <= k < i - 1 ==> (#[trigger] bands@[k]).1 == bands@[k + 1].0,
            forall|y: int| 0 <= y < prev_max_bound ==> #[trigger] row_covered_s(bands@, y),
        decreases worker_count - i,
    {
        let lower: usize = prev_max_bound;
        proof {
            lemma_partition_step(height as int, worker_count as int, i as int);
        }
        let mut upper: usize = prev_max_bound + per_worker_y;
        prev_max_bound = upper;
        if i == worker_count - 1 {
            upper = height;
        }
        let ghost old_bands = bands@;
        bands.push((lower, upper));
        proof {
            assert forall|y: int| 0 <= y < prev_max_bound implies #[trigger] row_covered_s(
                bands@,
                y,
            ) by {
                if y < lower {
                    assert(row_covered_s(old_bands, y));
                    let k = choose|k: int|
                        0 <= k < old_bands.len() && (#[trigger] old_bands[k]).0 <= y
                            < old_bands[k].1;
                    assert(bands@[k] == old_bands[k]);
                } else {
                    assert((#[trigger] bands@[i as int]).0 <= y < bands@[i as int].1);
                }
            }
        }
        i = i + 1;
    }
    proof {
        assert forall|y: int| 0 <= y < height implies #[trigger] row_covered_s(bands@, y) by {
            if y >= prev_max_bound {
                lemma_partition_step(height as int, worker_count as int, worker_count as int - 1);
                assert((#[trigger] bands@[worker_count - 1]).0 <= y < bands@[worker_count - 1].1);
            }
        }
    }
    bands
}

/// Within the loop of `partition_bands`: how the cumulative lower
/// bound `i * per` steps, and that the next band still fits under
/// `height`, strictly so before the last one.
proof fn lemma_partition_step(height: int, worker_count: int, i: int)
    requires
        worker_count >= 1,
        height >= 0,
        0 <= i <= worker_count,
    ensures
        0 <= i * (height / worker_count),
        (i + 1) * (height / worker_count) == i * (height / worker_count) + (height / worker_count),
        i < worker_count ==> (i + 1) * (height / worker_count) <= height,
        i + 1 < worker_count ==> (i + 1) * (height / worker_count) + (height / worker_count)
            <= height,
{
    let per = height / worker_count;
    vstd::arithmetic::div_mod::lemma_fundamental_div_mod(height, worker_count);
    vstd::arithmetic::div_mod::lemma_mod_bound(height, worker_count);
    vstd::arithmetic::div_mod::lemma_div_pos_is_pos(height, worker_count);
    assert(0 <= i * per && (i + 1) * per == i * per + per && (i + 2) * per == (i + 1) * per + per)
        by (nonlinear_arith)
        requires
            0 <= per,
            0 <= i,
    {
    }
    assert((i + 1) * per <= worker_count * per || !(i + 1 <= worker_count)) by (nonlinear_arith)
        requires
            0 <= per,
    {
    }
    assert((i + 2) * per <= worker_count * per || !(i + 2 <= worker_count)) by (nonlinear_arith)
        requires
            0 <= per,
    {
    }
    assert(worker_count * per <= height) by (nonlinear_arith)
        requires
            height == worker_count * per + height % worker_count,
            height % worker_count >= 0,
    {
    }
}

/// What one tick of the renderer reports: nothing to do, the render
/// just completed, or progress in hundredths of a percent.
#[derive(Clone, Copy, PartialEq, Eq, Structural, Debug)]
pub enum TickStatus {
    NotWorking,
    Finished,
    Progress(u64),
}

/// A band snapshot matches the authoritative buffer: its rows lie
/// within the image, it carries one colour per band pixel, and every
/// colour is representable.
pub open spec fn packet_fits_s(b: RayTracerBuffer, p: RayResult) -> bool {
    &&& p.bound_y.0 <= p.bound_y.1 <= b.buffer_size.1
    &&& p.srgb_buffer@.len() == b.buffer_size.0 * (p.bound_y.1 - p.bound_y.0)
    &&& forall|i: int| 0 <= i < p.srgb_buffer@.len() ==> vec_ok(#[trigger] p.srgb_buffer@[i])
}

/// What merging one band snapshot does to the buffer: every pixel of
/// the band carries the snapshot's display bytes at the vertically
/// flipped row, and every other pixel keeps its bytes.
#[verifier::opaque]
pub open spec fn merge_rel_s(
    pre: Seq<u8>,
    post: Seq<u8>,
    size: (usize, usize),
    p: RayResult,
) -> bool {
    let y0 = p.bound_y.0 as int;
    let y1 = p.bound_y.1 as int;
    &&& post.len() == pre.len()
    &&& forall|x: int, y: int, c: int|
        0 <= x < size.0 && y0 <= y < y1 && 0 <= c < 3 ==> #[trigger] pixel_byte_s(
            post,
            size,
            x,
            flip_row_s(size, y),
            c,
        ) == packet_pixel_byte_s(size, p, x, y, c)
    &&& forall|x: int, fy: int, c: int|
        0 <= x < size.0 && 0 <= fy < size.1 && 0 <= c < 3 && !(size.1 - y1 <= fy < size.1 - y0)
            ==> #[trigger] pixel_byte_s(post, size, x, fy, c) == pixel_byte_s(pre, size, x, fy, c)
}

/// A drained batch, witnessed by the buffer history `bufs`: merging
/// packet k turns the k-th buffer state into the next.
pub open spec fn merged_chain_rel(
    size: (usize, usize),
    bufs: Seq<Seq<u8>>,
    packets: Seq<RayResult>,
) -> bool {
    &&& bufs.len() == packets.len() + 1
    &&& forall|k: int|
        0 <= k < packets.len() ==> #[trigger] merge_rel_s(bufs[k], bufs[k + 1], size, packets[k])
}

/// One byte of the pixel at `(x, y)`, channel `c`.
pub open spec fn pixel_byte_s(b: Seq<u8>, size: (usize, usize), x: int, y: int, c: int) -> u8 {
    b[byte_index_s(size, x, y) + c]
}

/// Renderer bookkeeping stays within machine range.
pub open spec fn rt_ok(rt: RayTracer) -> bool {
    &&& buffer_ok(rt.buffer)
    &&& world_ok(rt.world)
    &&& camera_ok(rt.camera)
    &&& rt.worker_nums <= MAX_SCREEN_DIM
    &&& rt.settings.sample_count <= 65536
    &&& rt.settings.receive_limit <= 65536
    &&& rt.received_packet <= 0x4001_0000
}

/// Packets one render owes: one per worker per sample pass.
pub open spec fn expected_packets_s(rt: RayTracer) -> int {
    rt.worker_nums * rt.settings.sample_count
}

/// The band assignments of a batch of worker settings.
pub open spec fn settings_bands_s(r: Seq<RayWorkerSettings>) -> Seq<(usize, usize)> {
    r.map_values(|s: RayWorkerSettings| s.bound_y)
}

/// The display byte a snapshot supplies for band pixel `(x, y)` (in
/// render rows), channel `c`.
pub open spec fn packet_pixel_byte_s(
    size: (usize, usize),
    p: RayResult,
    x: int,
    y: int,
    c: int,
) -> u8 {
    let color = p.srgb_buffer@[size.0 * (y - p.bound_y.0) + x];
    let channel = if c == 0 {
        color.x as int
    } else if c == 1 {
        color.y as int
    } else {
        color.z as int
    };
    byte_of_s(channel) as u8
}

/// During a merge sweeping columns left to right and rows bottom to
/// top, whether display pixel `(px, fy)` has been written once the
/// sweep stands at column `x`, row `y`.
pub open spec fn merge_written_s(
    size: (usize, usize),
    p: RayResult,
    x: int,
    y: int,
    px: int,
    fy: int,
) -> bool {
    let h = size.1 as int;
    &&& h - p.bound_y.1 <= fy < h - p.bound_y.0
    &&& (px < x || (px == x && h - 1 - fy < y))
}

/// The merge's intermediate state: every written pixel holds the
/// snapshot's bytes for its (flipped) row, and every other pixel
/// holds the bytes it had when the merge began.
pub open spec fn merged_up_to_s(
    cur: Seq<u8>,
    entry: Seq<u8>,
    size: (usize, usize),
    p: RayResult,
    x: int,
    y: int,
) -> bool {
    &&& cur.len() == entry.len()
    &&& forall|px: int, fy: int, c: int|
        0 <= px < size.0 && 0 <= fy < size.1 && 0 <= c < 3 && merge_written_s(size, p, x, y, px, fy)
            ==> #[trigger] pixel_byte_s(cur, size, px, fy, c) == packet_pixel_byte_s(
            size,
            p,
            px,
            size.1 - 1 - fy,
            c,
        )
    &&& forall|px: int, fy: int, c: int|
        0 <= px < size.0 && 0 <= fy < size.1 && 0 <= c < 3 && !merge_written_s(
            size,
            p,
            x,
            y,
            px,
            fy,
        ) ==> #[trigger] pixel_byte_s(cur, size, px, fy, c) == pixel_byte_s(entry, size, px, fy, c)
}

/// One `set_buffer` call advances the merge state by one row of one
/// column.
proof fn lemma_merge_step(
    pre: Seq<u8>,
    post: Seq<u8>,
    entry: Seq<u8>,
    size: (usize, usize),
    p: RayResult,
    x: int,
    y: int,
)
    requires
        size.0 <= MAX_SCREEN_DIM,
        size.1 <= MAX_SCREEN_DIM,
        pre.len() == size.0 * size.1 * 3,
        merged_up_to_s(pre, entry, size, p, x, y),
        0 <= x < size.0,
        p.bound_y.0 <= y < p.bound_y.1,
        p.bound_y.1 <= size.1,
        ({
            let base = byte_index_s(size, x, flip_row_s(size, y));
            post == pre.update(base, packet_pixel_byte_s(size, p, x, y, 0)).update(
                base + 1,
                packet_pixel_byte_s(size, p, x, y, 1),
            ).update(base + 2, packet_pixel_byte_s(size, p, x, y, 2))
        }),
    ensures
        merged_up_to_s(post, entry, size, p, x, y + 1),
{
    let fy = flip_row_s(size, y);
    let base = byte_index_s(size, x, fy);
    lemma_byte_index_in_range(size, x, fy);
    assert forall|px: int, fy2: int, c: int|
        0 <= px < size.0 && 0 <= fy2 < size.1 && 0 <= c < 3 implies #[trigger] pixel_byte_s(
        post,
        size,
        px,
        fy2,
        c,
    ) == (if px == x && fy2 == fy {
        packet_pixel_byte_s(size, p, px, size.1 - 1 - fy2, c)
    } else {
        pixel_byte_s(pre, size, px, fy2, c)
    }) by {
        lemma_byte_index_in_range(size, px, fy2);
        if !(px == x && fy2 == fy) {
            lemma_byte_index_injective(size, px, fy2, x, fy);
        }
    }
}

/// The large ground sphere of the procedural scene.
pub open spec fn ground_sphere_s() -> Sphere {
    Sphere {
        center: Vec3 { x: 0i64, y: -1_000_000_000i64, z: 0i64 },
        radius: 1_000_000_000i64,
        material: Material::Lambertian(
            Lambertian { albedo: Vec3 { x: 500_000i64, y: 500_000i64, z: 500_000i64 } },
        ),
    }
}

/// The fixed glass feature sphere.
pub open spec fn glass_feature_sphere_s() -> Sphere {
    Sphere {
        center: Vec3 { x: 0i64, y: 1_000_000i64, z: 0i64 },
        radius: 1_000_000i64,
        material: Material::Dielectric(Dielectric { refraction_index: 1_500_000i64 }),
    }
}

/// The fixed diffuse feature sphere.
pub open spec fn diffuse_feature_sphere_s() -> Sphere {
    Sphere {
        center: Vec3 { x: -4_000_000i64, y: 1_000_000i64, z: 0i64 },
        radius: 1_000_000i64,
        material: Material::Lambertian(
            Lambertian { albedo: Vec3 { x: 400_000i64, y: 200_000i64, z: 100_000i64 } },
        ),
    }
}

/// The fixed metal feature sphere.
pub open spec fn metal_feature_sphere_s() -> Sphere {
    Sphere {
        center: Vec3 { x: 4_000_000i64, y: 1_000_000i64, z: 0i64 },
        radius: 1_000_000i64,
        material: Material::Metal(
            Metal {
                albedo: Vec3 { x: 700_000i64, y: 600_000i64, z: 500_000i64 },
                fuzziness: 0i64,
            },
        ),
    }
}

/// A small grid sphere of the procedural scene: radius one fifth of a
/// unit, resting on the ground plane, within the grid's extent, and
/// carrying a real material.
pub open spec fn small_sphere_s(sp: Sphere) -> bool {
    &&& sp.radius == 200_000
    &&& sp.center.y == 200_000
    &&& -16_000_000 <= sp.center.x <= 16_000_000
    &&& -16_000_000 <= sp.center.z <= 16_000_000
    &&& !(sp.material is Error)
}

/// The fixed viewpoint of the procedural render.
pub open spec fn render_look_from_s() -> Point3 {
    Vec3 { x: 13_000_000i64, y: 2_000_000i64, z: 3_000_000i64 }
}

/// The fixed look target of the procedural render.
pub open spec fn render_look_to_s() -> Point3 {
    Vec3 { x: 0i64, y: 0i64, z: 0i64 }
}

/// The camera settings of the procedural render.
pub open spec fn render_camera_settings_s() -> CameraSettings {
    CameraSettings { fov: 20_000_000i64, aperture: 100_000i64, focus_dist: 10_000_000i64 }
}

/// The coordinator: owns the authoritative buffer, the scene, the
/// camera and the Idle/Working state machine; workers run outside it
/// and their snapshots are merged back through `tick`.
pub struct RayTracer {
    pub core_thread_nums: usize,
    pub buffer: RayTracerBuffer,
    pub world: World,
    pub camera: Camera,
    pub settings: RayTracerSettings,
    pub state: RayTracerState,
    pub received_packet: usize,
    pub buffer_updated: bool,
    pub worker_nums: usize,
    pub rng: Rng,
}

/// The worker count derived from a CPU count: one per core beyond the
/// reserved ones, at least one, and capped at the dimension bound.
pub open spec fn derived_workers_s(cpus: int, core: int) -> int {
    let wanted = if cpus > core {
        cpus - core
    } else {
        1
    };
    if wanted > MAX_SCREEN_DIM {
        MAX_SCREEN_DIM as int
    } else {
        wanted
    }
}

/// Relies on num_cpus::get for the machine's logical CPU count; its
/// documentation promises at least one.
#[verifier::external_body]
fn cpu_count() -> (r: usize)
    ensures
        r >= 1,
{
    num_cpus::get()
}

impl RayTracer {
    /// A renderer with a zeroed buffer of the given size, an empty
    /// scene, default settings, and a fixed scene seed.
    pub fn new(init_size: (usize, usize), core_thread_nums: usize) -> (r: RayTracer)
        requires
            init_size.0 <= MAX_SCREEN_DIM,
            init_size.1 <= MAX_SCREEN_DIM,
        ensures
            rt_ok(r),
            r.state is Idle,
            r.received_packet == 0,
            r.worker_nums == 0,
            r.buffer_updated == false,
            r.core_thread_nums == core_thread_nums,
            r.buffer.buffer_size == init_size,
            forall|i: int| 0 <= i < r.buffer.buffer@.len() ==> r.buffer.buffer@[i] == 0u8,
            r.settings == (RayTracerSettings {
                sample_count: 1000u32,
                bound_limit: 100u32,
                receive_limit: 10u32,
            }),
            r.world.objects@.len() == 0,
    {
        let mut raytracer_buffer = RayTracerBuffer {
            buffer: Vec::new(),
            buffer_size: (0, 0),
            buffer_byte_size: 0,
        };
        raytracer_buffer.resize(init_size);

        let ray_tracer_settings = RayTracerSettings {
            sample_count: 1000,
            bound_limit: 100,
            receive_limit: 10,
        };

        RayTracer {
            core_thread_nums,
            buffer: raytracer_buffer,
            world: World::new_default(),
            camera: Camera::new_default(),
            settings: ray_tracer_settings,
            state: RayTracerState::Idle,
            received_packet: 0,
            buffer_updated: false,
            worker_nums: 0,
            rng: Rng::new(1),
        }
    }

    /// Reinitialise the buffer to zero at the new size. A resize
    /// during a render leaves in-flight snapshots targeting the old
    /// size; the embedder discards any snapshot that no longer fits
    /// before handing it to `tick`.
    pub fn resize(&mut self, new_size: (usize, usize))
        requires
            rt_ok(*old(self)),
            new_size.0 <= MAX_SCREEN_DIM,
            new_size.1 <= MAX_SCREEN_DIM,
        ensures
            rt_ok(*final(self)),
            final(self).buffer.buffer_size == new_size,
            forall|i: int|
                0 <= i < final(self).buffer.buffer@.len() ==> final(self).buffer.buffer@[i] == 0u8,
            final(self).state == old(self).state,
            final(self).settings == old(self).settings,
            final(self).worker_nums == old(self).worker_nums,
            final(self).received_packet == old(self).received_packet,
    {
        self.buffer.resize(new_size);
    }

    /// Start a render with an explicit worker count: build the scene
    /// and the camera, partition the image into one band per worker,
    /// and move to Working. A renderer already Working ignores the
    /// command and hands back no work.
    pub fn start_render(&mut self, worker_nums: usize) -> (r: Vec<RayWorkerSettings>)
        requires
            rt_ok(*old(self)),
            1 <= worker_nums <= MAX_SCREEN_DIM,
        ensures
            rt_ok(*final(self)),
            old(self).state is Working ==> *final(self) == *old(self) && r@.len() == 0,
            old(self).state is Idle ==> {
                &&& final(self).state is Working
                &&& final(self).worker_nums == worker_nums
                &&& final(self).settings == old(self).settings
                &&& final(self).buffer.buffer_size == old(self).buffer.buffer_size
                &&& final(self).received_packet == old(self).received_packet
                &&& world_ok(final(self).world)
                &&& final(self).world.objects@.len() >= 4
                &&& r@.len() == worker_nums
                &&& bands_contiguous_s(settings_bands_s(r@), old(self).buffer.buffer_size.1 as int)
                &&& forall|y: int|
                    0 <= y < old(self).buffer.buffer_size.1 ==> #[trigger] row_covered_s(
                        settings_bands_s(r@),
                        y,
                    )
                &&& forall|k: int|
                    0 <= k < r@.len() ==> worker_settings_ok(#[trigger] r@[k]) && r@[k].screen_size
                        == old(self).buffer.buffer_size && r@[k].sample_count == old(
                        self,
                    ).settings.sample_count && r@[k].bound_limit == old(self).settings.bound_limit
                &&& forall|k: int|
                    0 <= k < r@.len() ==> (#[trigger] r@[k]).bound_y.0 == k * (old(
                        self,
                    ).buffer.buffer_size.1 as int / worker_nums as int)
            },
    {
        if let RayTracerState::Idle = self.state {
        } else {
            return Vec::new();
        }

        self.state = RayTracerState::Working;
        self.worker_nums = worker_nums;

        self.build_world();
        self.update_camera();

        let screen_size: (usize, usize) = self.buffer.get_buffer_size();
        let bands: Vec<(usize, usize)> = partition_bands(screen_size.1, worker_nums);

        let mut worker_settings: Vec<RayWorkerSettings> = Vec::new();
        let mut i: usize = 0;
        while i < worker_nums
            invariant
                i <= worker_nums,
                worker_settings@.len() == i,
                bands@.len() == worker_nums,
                screen_size == self.buffer.buffer_size,
                screen_size.0 <= MAX_SCREEN_DIM,
                screen_size.1 <= MAX_SCREEN_DIM,
                bands_contiguous_s(bands@, screen_size.1 as int),
                forall|y: int|
                    0 <= y < screen_size.1 ==> #[trigger] row_covered_s(bands@, y),
                forall|k: int| 0 <= k < i ==> (#[trigger] worker_settings@[k]).bound_y == bands@[k],
                forall|k: int|
                    0 <= k < i ==> worker_settings_ok(#[trigger] worker_settings@[k])
                        && worker_settings@[k].screen_size == screen_size
                        && worker_settings@[k].sample_count == self.settings.sample_count
                        && worker_settings@[k].bound_limit == self.settings.bound_limit,
            decreases worker_nums - i,
        {
            let band: (usize, usize) = bands[i];
            worker_settings.push(
                RayWorkerSettings {
                    screen_size,
                    bound_y: band,
                    sample_count: self.settings.sample_count,
                    bound_limit: self.settings.bound_limit,
                },
            );
            i = i + 1;
        }
        proof {
            assert(settings_bands_s(worker_settings@) =~= bands@);
        }
        worker_settings
    }

    /// Start a render, one worker per CPU core beyond the reserved
    /// ones; see `start_render`.
    pub fn run(&mut self) -> (r: Vec<RayWorkerSettings>)
        requires
            rt_ok(*old(self)),
        ensures
            rt_ok(*final(self)),
            old(self).state is Working ==> *final(self) == *old(self) && r@.len() == 0,
            old(self).state is Idle ==> {
                &&& final(self).state is Working
                &&& 1 <= final(self).worker_nums <= MAX_SCREEN_DIM
                &&& exists|cpus: int|
                    cpus >= 1 && final(self).worker_nums == #[trigger] derived_workers_s(
                        cpus,
                        old(self).core_thread_nums as int,
                    )
                &&& r@.len() == final(self).worker_nums
                &&& bands_contiguous_s(settings_bands_s(r@), old(self).buffer.buffer_size.1 as int)
                &&& forall|y: int|
                    0 <= y < old(self).buffer.buffer_size.1 ==> #[trigger] row_covered_s(
                        settings_bands_s(r@),
                        y,
                    )
                &&& forall|k: int|
                    0 <= k < r@.len() ==> worker_settings_ok(#[trigger] r@[k]) && r@[k].screen_size
                        == old(self).buffer.buffer_size && r@[k].sample_count == old(
                        self,
                    ).settings.sample_count && r@[k].bound_limit == old(self).settings.bound_limit
            },
    {
        let cpu_nums: usize = cpu_count();
        let mut worker_nums: usize = if cpu_nums > self.core_thread_nums {
            cpu_nums - self.core_thread_nums
        } else {
            1
        };
        if worker_nums > MAX_SCREEN_DIM {
            worker_nums = MAX_SCREEN_DIM;
        }
        if worker_nums < 1 {
            worker_nums = 1;
        }
        let result: Vec<RayWorkerSettings> = self.start_render(worker_nums);
        proof {
            assert(worker_nums == derived_workers_s(
                cpu_nums as int,
                old(self).core_thread_nums as int,
            ));
        }
        result
    }

    /// Merge one band snapshot into the authoritative buffer: every
    /// pixel of the band is overwritten with the snapshot's colour at
    /// the vertically flipped row; every other pixel keeps its bytes.
    pub fn apply_worker_buffer(&mut self, ray_result: &RayResult)
        requires
            rt_ok(*old(self)),
            packet_fits_s(old(self).buffer, *ray_result),
        ensures
            rt_ok(*final(self)),
            final(self).buffer.buffer_size == old(self).buffer.buffer_size,
            final(self).world == old(self).world,
            final(self).camera == old(self).camera,
            final(self).settings == old(self).settings,
            final(self).state == old(self).state,
            final(self).received_packet == old(self).received_packet,
            final(self).worker_nums == old(self).worker_nums,
            final(self).buffer_updated == old(self).buffer_updated,
            merge_rel_s(
                old(self).buffer.buffer@,
                final(self).buffer.buffer@,
                old(self).buffer.buffer_size,
                *ray_result,
            ),
    {
        let width: usize = self.buffer.get_buffer_size().0;
        let y_start: usize = ray_result.bound_y.0;
        let y_end: usize = ray_result.bound_y.1;
        let ghost size = self.buffer.buffer_size;
        let ghost entry_buffer = self.buffer.buffer@;

        let mut x: usize = 0;
        while x < width
            invariant
                rt_ok(*self),
                packet_fits_s(old(self).buffer, *ray_result),
                self.buffer.buffer_size == old(self).buffer.buffer_size,
                self.world == old(self).world,
                self.camera == old(self).camera,
                self.settings == old(self).settings,
                self.state == old(self).state,
                self.received_packet == old(self).received_packet,
                self.worker_nums == old(self).worker_nums,
                self.buffer_updated == old(self).buffer_updated,
                self.rng == old(self).rng,
                self.core_thread_nums == old(self).core_thread_nums,
                width == size.0,
                size == old(self).buffer.buffer_size,
                entry_buffer == old(self).buffer.buffer@,
                y_start == ray_result.bound_y.0,
                y_end == ray_result.bound_y.1,
                x <= width,
                merged_up_to_s(
                    self.buffer.buffer@,
                    entry_buffer,
                    size,
                    *ray_result,
                    x as int,
                    y_start as int,
                ),
            decreases width - x,
        {
            let mut y: usize = y_start;
            while y < y_end
                invariant
                    rt_ok(*self),
                    packet_fits_s(old(self).buffer, *ray_result),
                    self.buffer.buffer_size == old(self).buffer.buffer_size,
                    self.world == old(self).world,
                    self.camera == old(self).camera,
                    self.settings == old(self).settings,
                    self.state == old(self).state,
                    self.received_packet == old(self).received_packet,
                    self.worker_nums == old(self).worker_nums,
                    self.buffer_updated == old(self).buffer_updated,
                    self.rng == old(self).rng,
                    self.core_thread_nums == old(self).core_thread_nums,
                    width == size.0,
                    size == old(self).buffer.buffer_size,
                    entry_buffer == old(self).buffer.buffer@,
                    y_start == ray_result.bound_y.0,
                    y_end == ray_result.bound_y.1,
                    x < width,
                    y_start <= y <= y_end,
                    merged_up_to_s(
                        self.buffer.buffer@,
                        entry_buffer,
                        size,
                        *ray_result,
                        x as int,
                        y as int,
                    ),
                decreases y_end - y,
            {
                let offseted_y: usize = y - y_start;
                proof {
                    assert(width * (offseted_y as int) + x < width * (y_end - y_start)
                        && 0 <= width * (offseted_y as int) + x && width * (y_end - y_start)
                        <= 16384 * 16384) by (nonlinear_arith)
                        requires
                            0 <= x < width,
                            0 <= offseted_y < y_end - y_start,
                            width <= 16384,
                            y_end - y_start <= 16384,
                    {
                    }
                    assert(width * (offseted_y as int) == size.0 * (y as int
                        - ray_result.bound_y.0) && width * (y_end - y_start) == size.0
                        * (ray_result.bound_y.1 - ray_result.bound_y.0)) by (nonlinear_arith)
                        requires
                            width == size.0,
                            offseted_y == y as int - ray_result.bound_y.0,
                            y_start == ray_result.bound_y.0,
                            y_end == ray_result.bound_y.1,
                    {
                    }
                }
                let target_index: usize = width * offseted_y + x;
                let target_color: Color = self.buffer_color(ray_result, target_index);
                let ghost pre = self.buffer.buffer@;
                self.buffer.set_buffer((x, y), &target_color, true);
                proof {
                    lemma_merge_step(
                        pre,
                        self.buffer.buffer@,
                        entry_buffer,
                        size,
                        *ray_result,
                        x as int,
                        y as int,
                    );
                }
                y = y + 1;
            }
            x = x + 1;
        }
        proof {
            reveal(merge_rel_s);
        }
    }

    /// Advance coordination by one bounded step. Idle renderers do
    /// nothing. A Working renderer that has received every owed
    /// packet joins its workers and returns to Idle; otherwise the
    /// handed packets (at most `receive_limit`, drained by the
    /// embedder) are merged and progress is reported in hundredths of
    /// a percent.
    pub fn tick(&mut self, packets: &Vec<RayResult>) -> (r: TickStatus)
        requires
            rt_ok(*old(self)),
            packets@.len() <= old(self).settings.receive_limit,
            forall|k: int|
                0 <= k < packets@.len() ==> packet_fits_s(
                    old(self).buffer,
                    #[trigger] packets@[k],
                ),
        ensures
            rt_ok(*final(self)),
            old(self).state is Idle ==> r == TickStatus::NotWorking && *final(self) == *old(self),
            old(self).state is Working && old(self).received_packet >= expected_packets_s(
                *old(self),
            ) ==> {
                &&& r == TickStatus::Finished
                &&& final(self).state is Idle
                &&& final(self).received_packet == 0
                &&& final(self).worker_nums == 0
                &&& final(self).buffer == old(self).buffer
                &&& final(self).settings == old(self).settings
                &&& final(self).world == old(self).world
                &&& final(self).camera == old(self).camera
                &&& final(self).buffer_updated == old(self).buffer_updated
            },
            old(self).state is Working && old(self).received_packet < expected_packets_s(
                *old(self),
            ) ==> {
                &&& final(self).state is Working
                &&& final(self).received_packet == old(self).received_packet + packets@.len()
                &&& final(self).worker_nums == old(self).worker_nums
                &&& final(self).settings == old(self).settings
                &&& final(self).buffer.buffer_size == old(self).buffer.buffer_size
                &&& final(self).world == old(self).world
                &&& final(self).camera == old(self).camera
                &&& (packets@.len() > 0 ==> final(self).buffer_updated)
                &&& (packets@.len() == 0 ==> final(self).buffer_updated == old(
                    self,
                ).buffer_updated)
                &&& exists|bufs: Seq<Seq<u8>>|
                    #[trigger] merged_chain_rel(old(self).buffer.buffer_size, bufs, packets@)
                        && bufs[0] == old(self).buffer.buffer@ && bufs[bufs.len() - 1]
                        == final(self).buffer.buffer@
                &&& r == TickStatus::Progress(
                    (((old(self).received_packet + packets@.len()) * 10000) / expected_packets_s(
                        *old(self),
                    )) as u64,
                )
            },
    {
        if let RayTracerState::Working = self.state {
        } else {
            return TickStatus::NotWorking;
        }

        proof {
            assert(self.worker_nums * self.settings.sample_count <= 16384 * 65536)
                by (nonlinear_arith)
                requires
                    0 <= self.worker_nums <= MAX_SCREEN_DIM,
                    0 <= self.settings.sample_count <= 65536,
                    MAX_SCREEN_DIM == 16384,
            {
            }
        }
        let expected_packet: usize = self.worker_nums * (self.settings.sample_count as usize);
        if self.received_packet >= expected_packet {
            self.state = RayTracerState::Idle;
            self.received_packet = 0;
            self.worker_nums = 0;
            return TickStatus::Finished;
        }

        let mut receive_count: usize = 0;
        let ghost mut bufs: Seq<Seq<u8>> = seq![self.buffer.buffer@];
        while receive_count < packets.len()
            invariant
                bufs.len() == receive_count + 1,
                bufs[0] == old(self).buffer.buffer@,
                bufs[bufs.len() - 1] == self.buffer.buffer@,
                forall|k: int|
                    0 <= k < receive_count ==> #[trigger] merge_rel_s(
                        bufs[k],
                        bufs[k + 1],
                        old(self).buffer.buffer_size,
                        packets@[k],
                    ),
                rt_ok(*self),
                packets@.len() <= old(self).settings.receive_limit,
                forall|k: int|
                    0 <= k < packets@.len() ==> packet_fits_s(
                        old(self).buffer,
                        #[trigger] packets@[k],
                    ),
                receive_count <= packets@.len(),
                self.state is Working,
                self.worker_nums == old(self).worker_nums,
                self.settings == old(self).settings,
                self.buffer.buffer_size == old(self).buffer.buffer_size,
                self.world == old(self).world,
                self.camera == old(self).camera,
                receive_count == 0 ==> self.buffer_updated == old(self).buffer_updated,
                buffer_ok(self.buffer),
                self.received_packet == old(self).received_packet + receive_count,
                old(self).received_packet < expected_packet,
                expected_packet == expected_packets_s(*old(self)),
                old(self).settings.receive_limit <= 65536,
                expected_packet <= 16384 * 65536,
                receive_count > 0 ==> self.buffer_updated,
            decreases packets@.len() - receive_count,
        {
            let ray_result: &RayResult = &packets[receive_count];
            self.apply_worker_buffer(ray_result);
            proof {
                bufs = bufs.push(self.buffer.buffer@);
            }
            self.received_packet = self.received_packet + 1;
            self.buffer_updated = true;
            receive_count = receive_count + 1;
        }
        proof {
            assert(merged_chain_rel(old(self).buffer.buffer_size, bufs, packets@));
        }

        let progress: u64 = ((self.received_packet as u64) * 10000) / (expected_packet as u64);
        TickStatus::Progress(progress)
    }

    /// Replace the scene with the procedural one: a large ground
    /// sphere, a grid of randomly placed and randomly materialed
    /// small spheres, and three fixed feature spheres — glass,
    /// diffuse and metal.
    pub fn build_world(&mut self)
        requires
            rt_ok(*old(self)),
        ensures
            rt_ok(*final(self)),
            final(self).buffer == old(self).buffer,
            final(self).camera == old(self).camera,
            final(self).settings == old(self).settings,
            final(self).state == old(self).state,
            final(self).received_packet == old(self).received_packet,
            final(self).worker_nums == old(self).worker_nums,
            world_ok(final(self).world),
            final(self).world.objects@.len() >= 4,
            final(self).world.objects@[0] == ground_sphere_s(),
            final(self).world.objects@[final(self).world.objects@.len() - 3]
                == glass_feature_sphere_s(),
            final(self).world.objects@[final(self).world.objects@.len() - 2]
                == diffuse_feature_sphere_s(),
            final(self).world.objects@[final(self).world.objects@.len() - 1]
                == metal_feature_sphere_s(),
            forall|j: int|
                1 <= j < final(self).world.objects@.len() - 3 ==> small_sphere_s(
                    #[trigger] final(self).world.objects@[j],
                ),
    {
        self.world.clear_all_objects();

        let ground_material = Lambertian::new(Color::new(500_000, 500_000, 500_000));
        let ground_mesh = Sphere::new(
            Point3::new(0, -1_000_000_000, 0),
            1_000_000_000,
            Material::Lambertian(ground_material),
        );
        self.world.add_object(ground_mesh);

        let mut a: i64 = -15;
        while a < 15
            invariant
                rt_ok(*self),
                -15 <= a <= 15,
                self.buffer == old(self).buffer,
                self.camera == old(self).camera,
                self.settings == old(self).settings,
                self.state == old(self).state,
                self.received_packet == old(self).received_packet,
                self.worker_nums == old(self).worker_nums,
                self.buffer_updated == old(self).buffer_updated,
                self.core_thread_nums == old(self).core_thread_nums,
                world_ok(self.world),
                self.world.objects@.len() >= 1,
                self.world.objects@[0] == ground_sphere_s(),
                forall|j: int|
                    1 <= j < self.world.objects@.len() ==> small_sphere_s(
                        #[trigger] self.world.objects@[j],
                    ),
            decreases 15 - a,
        {
            let mut b: i64 = -15;
            while b < 15
                invariant
                    rt_ok(*self),
                    -15 <= a < 15,
                    -15 <= b <= 15,
                    self.buffer == old(self).buffer,
                    self.camera == old(self).camera,
                    self.settings == old(self).settings,
                    self.state == old(self).state,
                    self.received_packet == old(self).received_packet,
                    self.worker_nums == old(self).worker_nums,
                    self.buffer_updated == old(self).buffer_updated,
                    self.core_thread_nums == old(self).core_thread_nums,
                    world_ok(self.world),
                    self.world.objects@.len() >= 1,
                    self.world.objects@[0] == ground_sphere_s(),
                    forall|j: int|
                        1 <= j < self.world.objects@.len() ==> small_sphere_s(
                            #[trigger] self.world.objects@[j],
                        ),
                decreases 15 - b,
            {
                let jitter_x: i64 = self.rng.next_unit();
                let jitter_z: i64 = self.rng.next_unit();
                proof {
                    crate::fixed::lemma_mul_fp_le_left(900_000, jitter_x as int);
                    crate::fixed::lemma_mul_fp_le_left(900_000, jitter_z as int);
                }
                let center = Point3::new(
                    a * SCALE + fmul(900_000, jitter_x),
                    200_000,
                    b * SCALE + fmul(900_000, jitter_z),
                );
                let anchor = Point3::new(4_000_000, 200_000, 0);
                let can_spawn: bool = center.sub(&anchor).length() > 900_000;

                if can_spawn {
                    let choose_material: i64 = self.rng.next_unit();
                    let mesh: Sphere = if choose_material < 500_000 {
                        let albedo = Vec3::rand(&mut self.rng).mul_vec(&Vec3::rand(&mut self.rng));
                        Sphere::new(center, 200_000, Material::Lambertian(Lambertian::new(albedo)))
                    } else if choose_material < 800_000 {
                        let albedo = Vec3::rand_range((500_000, SCALE), &mut self.rng);
                        let fuzziness: i64 = self.rng.next_range(0, 100_000);
                        Sphere::new(center, 200_000, Material::Metal(Metal::new(albedo, fuzziness)))
                    } else {
                        Sphere::new(
                            center,
                            200_000,
                            Material::Dielectric(Dielectric::new(1_500_000)),
                        )
                    };
                    self.world.add_object(mesh);
                }
                b = b + 1;
            }
            a = a + 1;
        }

        let center_material = Dielectric::new(1_500_000);
        self.world.add_object(
            Sphere::new(Point3::new(0, SCALE, 0), SCALE, Material::Dielectric(center_material)),
        );

        let back_material = Lambertian::new(Color::new(400_000, 200_000, 100_000));
        self.world.add_object(
            Sphere::new(
                Point3::new(-4_000_000, SCALE, 0),
                SCALE,
                Material::Lambertian(back_material),
            ),
        );

        let front_material = Metal::new(Color::new(700_000, 600_000, 500_000), 0);
        self.world.add_object(
            Sphere::new(Point3::new(4_000_000, SCALE, 0), SCALE, Material::Metal(front_material)),
        );
    }

    /// Point the camera at the scene from the fixed viewpoint, with a
    /// twenty-degree field of view and the aspect ratio of the
    /// buffer.
    pub fn update_camera(&mut self)
        requires
            rt_ok(*old(self)),
        ensures
            rt_ok(*final(self)),
            final(self).buffer == old(self).buffer,
            final(self).world == old(self).world,
            final(self).settings == old(self).settings,
            final(self).state == old(self).state,
            final(self).received_packet == old(self).received_packet,
            final(self).worker_nums == old(self).worker_nums,
            final(self).camera == camera_updated_s(
                render_look_from_s(),
                render_look_to_s(),
                div_fp(
                    old(self).buffer.buffer_size.0 * (SCALE as int),
                    old(self).buffer.buffer_size.1 * (SCALE as int),
                ),
                render_camera_settings_s(),
            ),
    {
        let look_from = Point3::new(13_000_000, 2_000_000, 3_000_000);
        let look_to = Point3::new(0, 0, 0);
        let buffer_size: (usize, usize) = self.buffer.get_buffer_size();
        let aspect_ratio: i64 = fdiv(
            (buffer_size.0 as i64) * SCALE,
            (buffer_size.1 as i64) * SCALE,
        );

        let settings = CameraSettings::new(20_000_000, 100_000, 10_000_000);
        self.camera.update(look_from, look_to, aspect_ratio, settings);
    }

    pub fn get_raytracer_state(&self) -> (r: RayTracerState)
        ensures
            r == self.state,
    {
        self.state
    }

    pub fn is_buffer_updated(&self) -> (r: bool)
        ensures
            r == self.buffer_updated,
    {
        self.buffer_updated
    }

    /// Hand out the authoritative buffer and clear the updated flag,
    /// so the embedder can skip redundant redraws.
    pub fn consume_buffer(&mut self) -> (r: &RayTracerBuffer)
        ensures
            final(self).buffer_updated == false,
            final(self).buffer == old(self).buffer,
            final(self).world == old(self).world,
            final(self).camera == old(self).camera,
            final(self).settings == old(self).settings,
            final(self).state == old(self).state,
            final(self).received_packet == old(self).received_packet,
            final(self).worker_nums == old(self).worker_nums,
            *r == final(self).buffer,
    {
        self.buffer_updated = false;
        &self.buffer
    }

    pub fn get_buffer_size(&self) -> (r: (usize, usize))
        ensures
            r == self.buffer.buffer_size,
    {
        self.buffer.get_buffer_size()
    }

    /// One colour of a snapshot, fetched by index.
    fn buffer_color(&self, ray_result: &RayResult, index: usize) -> (r: Color)
        requires
            index < ray_result.srgb_buffer@.len(),
            forall|i: int|
                0 <= i < ray_result.srgb_buffer@.len() ==> vec_ok(
                    #[trigger] ray_result.srgb_buffer@[i],
                ),
        ensures
            r == ray_result.srgb_buffer@[index as int],
            vec_ok(r),
    {
        ray_result.srgb_buffer[index]
    }
}

/// Contiguous bands are pairwise disjoint: a row covered by two bands
/// is covered by the same band twice.
pub proof fn lemma_bands_disjoint(bands: Seq<(usize, usize)>, height: int, k1: int, k2: int, y: int)
    requires
        bands_contiguous_s(bands, height),
        0 <= k1 < bands.len(),
        0 <= k2 < bands.len(),
        bands[k1].0 <= y < bands[k1].1,
        bands[k2].0 <= y < bands[k2].1,
    ensures
        k1 == k2,
{
    if k1 < k2 {
        lemma_bands_ordered(bands, height, k1, k2);
    }
    if k2 < k1 {
        lemma_bands_ordered(bands, height, k2, k1);
    }
}

/// The end of an earlier band never passes the start of a later one.
proof fn lemma_bands_ordered(bands: Seq<(usize, usize)>, height: int, k1: int, k2: int)
    requires
        bands_contiguous_s(bands, height),
        0 <= k1 < k2 < bands.len(),
    ensures
        bands[k1].1 <= bands[k2].0,
    decreases k2 - k1,
{
    if k1 + 1 < k2 {
        lemma_bands_ordered(bands, height, k1 + 1, k2);
    }
}

} // verus!
