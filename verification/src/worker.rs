//! A render worker: owns a copy of the scene and camera, renders one
//! horizontal band of the image across many sample passes, and yields
//! one band snapshot per pass.

use vstd::prelude::*;
use crate::fixed::{SCALE, FP_MAX, div_fp, add_fp, sqrt_fp, clamp_fp, fadd, fdiv, fsqrt, fclamp};
use crate::vec3::{Vec3, Color, vec_ok, vec3_s, vadd_s, vmul_s, square_len_s};
use crate::ray::{Ray, ray_ok};
use crate::rng::{Rng, next_state_s, unit_sample_s};
use crate::object::{Sphere, HitRecord, sphere_ok, sphere_record_s, sphere_hit_t_s};
use crate::material::{ScatteredResult, scatter_rel};
use crate::world::{World, world_ok, world_misses_s, world_hit_rel, sky_color_s};
use crate::camera::{Camera, camera_ok, camera_ray_s};

verus! {

/// The least hit parameter a bounced ray accepts, keeping a bounce
/// from immediately re-hitting the surface it left.
pub const HIT_T_MIN: i64 = 100;

/// Largest screen dimension a worker accepts, so that every pixel
/// index stays comfortably within address range.
pub const MAX_SCREEN_DIM: usize = 16384;

/// What a worker is asked to do: the full image size, its own band
/// `[bound_y.0, bound_y.1)`, how many sample passes to run, and how
/// deep a ray may bounce.
#[derive(Clone, Copy, Debug)]
pub struct RayWorkerSettings {
    pub screen_size: (usize, usize),
    pub bound_y: (usize, usize),
    pub sample_count: u32,
    pub bound_limit: u32,
}

/// A band within the screen, with both dimensions bounded.
pub open spec fn worker_settings_ok(s: RayWorkerSettings) -> bool {
    &&& s.bound_y.0 <= s.bound_y.1 <= s.screen_size.1
    &&& s.screen_size.0 <= MAX_SCREEN_DIM
    &&& s.screen_size.1 <= MAX_SCREEN_DIM
}

/// Pixels in one band: the full width times the band height.
pub open spec fn band_size_s(s: RayWorkerSettings) -> int {
    s.screen_size.0 * (s.bound_y.1 - s.bound_y.0)
}

/// One finished sample pass for one band: the gamma-corrected pixels
/// and the rows they cover.
#[derive(Debug)]
pub struct RayResult {
    pub srgb_buffer: Vec<Color>,
    pub bound_y: (usize, usize),
}

impl Clone for RayResult {
    fn clone(&self) -> (r: Self)
        ensures
            r.srgb_buffer@ =~= self.srgb_buffer@,
            r.bound_y == self.bound_y,
    {
        RayResult { srgb_buffer: self.srgb_buffer.clone(), bound_y: self.bound_y }
    }
}

/// A worker with its private copies of the scene and the camera, its
/// linear accumulation buffer, and its gamma-corrected output buffer.
pub struct RayWorker {
    pub world: World,
    pub camera: Camera,
    pub accumulated_buffer: Vec<Color>,
    pub srgb_buffer: Vec<Color>,
    pub settings: RayWorkerSettings,
}

/// The worker invariant: a well-formed scene, camera and band, and
/// both buffers sized to the band with representable contents.
pub open spec fn worker_ok(w: RayWorker) -> bool {
    &&& world_ok(w.world)
    &&& camera_ok(w.camera)
    &&& worker_settings_ok(w.settings)
    &&& w.accumulated_buffer@.len() == band_size_s(w.settings)
    &&& w.srgb_buffer@.len() == band_size_s(w.settings)
    &&& forall|i: int|
        0 <= i < w.accumulated_buffer@.len() ==> vec_ok(#[trigger] w.accumulated_buffer@[i])
    &&& forall|i: int| 0 <= i < w.srgb_buffer@.len() ==> vec_ok(#[trigger] w.srgb_buffer@[i])
}

/// One gamma-corrected display channel: the accumulated sum divided
/// by the sample count, square-rooted, and clamped into the unit
/// interval.
pub open spec fn gamma_channel_s(sum: int, sample_count: int) -> int {
    clamp_fp(sqrt_fp(div_fp(sum, sample_count * SCALE)), 0, SCALE as int)
}

/// Gamma correction of a whole accumulated colour.
pub open spec fn gamma_color_s(sum: Vec3, sample_count: int) -> Vec3 {
    vec3_s(
        gamma_channel_s(sum.x as int, sample_count),
        gamma_channel_s(sum.y as int, sample_count),
        gamma_channel_s(sum.z as int, sample_count),
    )
}

/// A pixel of the band at `(x, y)` lives at `width * (y - y0) + x`.
pub open spec fn band_index_s(s: RayWorkerSettings, x: int, y: int) -> int {
    s.screen_size.0 * (y - s.bound_y.0) + x
}

/// Distinct pixels of the band have distinct buffer indices.
pub proof fn lemma_band_index_injective(s: RayWorkerSettings, x1: int, y1: int, x2: int, y2: int)
    requires
        worker_settings_ok(s),
        0 <= x1 < s.screen_size.0,
        s.bound_y.0 <= y1 < s.bound_y.1,
        0 <= x2 < s.screen_size.0,
        s.bound_y.0 <= y2 < s.bound_y.1,
        !(x1 == x2 && y1 == y2),
    ensures
        band_index_s(s, x1, y1) != band_index_s(s, x2, y2),
{
    let w = s.screen_size.0 as int;
    assert(w * (y1 - s.bound_y.0) + x1 != w * (y2 - s.bound_y.0) + x2) by (nonlinear_arith)
        requires
            0 <= x1 < w,
            0 <= x2 < w,
            0 <= y1 - s.bound_y.0,
            0 <= y2 - s.bound_y.0,
            !(x1 == x2 && y1 == y2),
    {
    }
}

/// The band index of an in-band pixel is within the band buffer.
pub proof fn lemma_band_index_in_range(s: RayWorkerSettings, x: int, y: int)
    requires
        worker_settings_ok(s),
        0 <= x < s.screen_size.0,
        s.bound_y.0 <= y < s.bound_y.1,
    ensures
        0 <= band_index_s(s, x, y) < band_size_s(s),
        band_size_s(s) <= 0x1000_0000,
{
    let w = s.screen_size.0 as int;
    let rel = y - s.bound_y.0;
    let h = s.bound_y.1 - s.bound_y.0;
    assert(0 <= w * rel && w * rel + x < w * h) by (nonlinear_arith)
        requires
            0 <= x < w,
            0 <= rel < h,
    {
    }
    assert(w * h <= 0x1000_0000) by (nonlinear_arith)
        requires
            0 <= w <= MAX_SCREEN_DIM,
            0 <= h <= MAX_SCREEN_DIM,
    {
    }
}

/// The stratified viewport coordinate of pixel `p` on a screen span
/// of `dim` pixels, jittered by the unit draw `u1`: `(p + u1) / (dim - 1)`.
#[verifier::opaque]
pub open spec fn jitter_coord_s(p: int, dim: int, u1: int) -> int {
    div_fp(add_fp(p * (SCALE as int), u1), (dim - 1) * (SCALE as int))
}

/// One bounce chain of the path integrator, witnessed explicitly:
/// `recs` and `ress` are the hit records and successful scatters of
/// each bounce in order, each hit the closest one and each scatter
/// one its material admits; the chain ends within the bounce budget,
/// at a ray that misses everything, or at a record (`absorbed`) whose
/// material absorbs the ray.
pub open spec fn path_rel(
    objects: Seq<Sphere>,
    ray: Ray,
    bound: nat,
    recs: Seq<HitRecord>,
    ress: Seq<ScatteredResult>,
    absorbed: Option<HitRecord>,
) -> bool
    decreases recs.len(),
{
    if recs.len() == 0 {
        match absorbed {
            Some(arec) => {
                &&& ress.len() == 0
                &&& bound >= 1
                &&& !world_misses_s(objects, ray, HIT_T_MIN as int, FP_MAX as int)
                &&& world_hit_rel(objects, ray, HIT_T_MIN as int, FP_MAX as int, arec)
                &&& scatter_rel(arec.material, ray, arec, None)
            },
            None => {
                &&& ress.len() == 0
                &&& (bound == 0 || world_misses_s(objects, ray, HIT_T_MIN as int, FP_MAX as int))
            },
        }
    } else {
        &&& ress.len() == recs.len()
        &&& bound >= 1
        &&& !world_misses_s(objects, ray, HIT_T_MIN as int, FP_MAX as int)
        &&& world_hit_rel(objects, ray, HIT_T_MIN as int, FP_MAX as int, recs[0])
        &&& scatter_rel(recs[0].material, ray, recs[0], Some(ress[0]))
        &&& path_rel(
            objects,
            ress[0].scattered_ray,
            (bound - 1) as nat,
            recs.drop_first(),
            ress.drop_first(),
            absorbed,
        )
    }
}

/// The colour a bounce chain yields: the product of the scatters'
/// attenuations with the sky colour seen by the final ray.
pub open spec fn chain_color_s(ray: Ray, ress: Seq<ScatteredResult>) -> Color
    decreases ress.len(),
{
    if ress.len() == 0 {
        sky_color_s(ray)
    } else {
        vmul_s(ress[0].attenuation, chain_color_s(ress[0].scattered_ray, ress.drop_first()))
    }
}

/// The colours the bounded path integrator may produce for a ray:
/// exactly the chain colours of bounce chains the scene admits. A
/// colour satisfying this relation is a product of path attenuations
/// with the sky colour at the leaf; at bound zero, or where every
/// object misses, only the sky itself qualifies. Kept opaque: proofs
/// that only hand an admitted colour onward never need its body.
#[verifier::opaque]
pub open spec fn trace_rel(objects: Seq<Sphere>, ray: Ray, bound: nat, c: Color) -> bool {
    exists|recs: Seq<HitRecord>, ress: Seq<ScatteredResult>, absorbed: Option<HitRecord>|
        #[trigger] path_rel(objects, ray, bound, recs, ress, absorbed) && c == chain_color_s(
            ray,
            ress,
        )
}

/// A ray at the end of its chain — out of bounces, or missing every
/// object — sees exactly the sky.
proof fn lemma_trace_terminal(objects: Seq<Sphere>, ray: Ray, b: nat, c: Color)
    requires
        b == 0 || world_misses_s(objects, ray, HIT_T_MIN as int, FP_MAX as int),
        c == sky_color_s(ray),
    ensures
        trace_rel(objects, ray, b, c),
{
    reveal(trace_rel);
    let recs = Seq::<HitRecord>::empty();
    let ress = Seq::<ScatteredResult>::empty();
    assert(path_rel(objects, ray, b, recs, ress, None::<HitRecord>));
    assert(c == chain_color_s(ray, ress));
}

/// One step of `trace_rel` at a hit: a record of the closest hit, a
/// scatter outcome the material admits, and a colour admitted for the
/// bounced ray combine into a colour admitted for the ray.
#[verifier::spinoff_prover]
#[verifier::rlimit(100)]
proof fn lemma_trace_step_hit(
    objects: Seq<Sphere>,
    ray: Ray,
    b: nat,
    rec: HitRecord,
    res: Option<ScatteredResult>,
    bounced: Color,
    c: Color,
)
    requires
        b >= 1,
        !world_misses_s(objects, ray, HIT_T_MIN as int, FP_MAX as int),
        world_hit_rel(objects, ray, HIT_T_MIN as int, FP_MAX as int, rec),
        scatter_rel(rec.material, ray, rec, res),
        res is Some ==> trace_rel(objects, res->0.scattered_ray, (b - 1) as nat, bounced) && c
            == vmul_s(res->0.attenuation, bounced),
        res is None ==> c == sky_color_s(ray),
    ensures
        trace_rel(objects, ray, b, c),
{
    reveal(trace_rel);
    match res {
        Some(s) => {
            let (recs0, ress0, absorbed0) = choose|
                recs0: Seq<HitRecord>,
                ress0: Seq<ScatteredResult>,
                absorbed0: Option<HitRecord>,
            |
                #[trigger] path_rel(objects, s.scattered_ray, (b - 1) as nat, recs0, ress0, absorbed0)
                    && bounced == chain_color_s(s.scattered_ray, ress0);
            let recs = seq![rec] + recs0;
            let ress = seq![s] + ress0;
            assert(recs.drop_first() =~= recs0);
            assert(ress.drop_first() =~= ress0);
            assert(path_rel(objects, ray, b, recs, ress, absorbed0));
            assert(c == chain_color_s(ray, ress));
        },
        None => {
            let recs = Seq::<HitRecord>::empty();
            let ress = Seq::<ScatteredResult>::empty();
            assert(path_rel(objects, ray, b, recs, ress, Some(rec)));
            assert(c == chain_color_s(ray, ress));
        },
    }
}

/// The colours one jittered sample of pixel `(x, y)` may produce:
/// some unit draws and some lens-disk sample aim a camera ray through
/// the stratified coordinates, and the colour is one the integrator
/// admits for that ray. Kept opaque: proofs that only carry the
/// relation from a sample to a pass never need its body.
#[verifier::opaque]
pub open spec fn pixel_sample_rel(
    objects: Seq<Sphere>,
    cam: Camera,
    s: RayWorkerSettings,
    x: int,
    y: int,
    c: Color,
) -> bool {
    exists|u1: int, v1: int, disk: Vec3|
        #![trigger trace_rel(objects, camera_ray_s(cam, jitter_coord_s(x, s.screen_size.0 as int, u1), jitter_coord_s(y, s.screen_size.1 as int, v1), disk), s.bound_limit as nat, c)]
        {
            &&& 0 <= u1 < SCALE
            &&& 0 <= v1 < SCALE
            &&& vec_ok(disk)
            &&& disk.z == 0
            &&& square_len_s(disk) < SCALE
            &&& trace_rel(
                objects,
                camera_ray_s(
                    cam,
                    jitter_coord_s(x, s.screen_size.0 as int, u1),
                    jitter_coord_s(y, s.screen_size.1 as int, v1),
                    disk,
                ),
                s.bound_limit as nat,
                c,
            )
        }
}

/// Pixel `(x, y)` has taken one pass sample: its accumulator entry
/// grew by some admissible sample colour, and its output entry holds
/// the gamma-corrected running average over `count` samples.
pub open spec fn pixel_pass_ok(
    objects: Seq<Sphere>,
    cam: Camera,
    s: RayWorkerSettings,
    acc_pre: Seq<Color>,
    acc_post: Seq<Color>,
    srgb_post: Seq<Color>,
    count: int,
    x: int,
    y: int,
) -> bool {
    exists|c: Color|
        {
            &&& #[trigger] pixel_sample_rel(objects, cam, s, x, y, c)
            &&& acc_post[band_index_s(s, x, y)] == vadd_s(acc_pre[band_index_s(s, x, y)], c)
            &&& srgb_post[band_index_s(s, x, y)] == gamma_color_s(
                acc_post[band_index_s(s, x, y)],
                count,
            )
        }
}

/// What one full sample pass does to the band: every pixel gains one
/// admissible sample colour in its accumulator, and its output entry
/// is refreshed with the gamma-corrected running average over `count`
/// samples.
#[verifier::opaque]
pub open spec fn pass_rel(
    objects: Seq<Sphere>,
    cam: Camera,
    s: RayWorkerSettings,
    acc_pre: Seq<Color>,
    acc_post: Seq<Color>,
    srgb_post: Seq<Color>,
    count: int,
) -> bool {
    &&& acc_post.len() == acc_pre.len()
    &&& srgb_post.len() == acc_pre.len()
    &&& forall|x: int, y: int|
        0 <= x < s.screen_size.0 && s.bound_y.0 <= y < s.bound_y.1 ==> #[trigger] pixel_pass_ok(
            objects,
            cam,
            s,
            acc_pre,
            acc_post,
            srgb_post,
            count,
            x,
            y,
        )
}

/// A whole run, witnessed by the accumulator history `accs`: the
/// k-th packet (counting from zero) is the outcome of the (k+1)-th
/// sample pass, carrying the gamma-corrected running averages of the
/// accumulator as it stood after that pass. Packets therefore arrive
/// in increasing sample order, each refining the one before.
pub open spec fn run_history_rel(
    objects: Seq<Sphere>,
    cam: Camera,
    s: RayWorkerSettings,
    accs: Seq<Seq<Color>>,
    packets: Seq<RayResult>,
) -> bool {
    &&& accs.len() == packets.len() + 1
    &&& forall|k: int|
        0 <= k < packets.len() ==> #[trigger] pass_rel(
            objects,
            cam,
            s,
            accs[k],
            accs[k + 1],
            packets[k].srgb_buffer@,
            k + 1,
        )
}

/// The pass's intermediate state, sweeping the band row by row and
/// each row left to right: every pixel before `(x, y)` has taken its
/// sample, every pixel from `(x, y)` on still holds its entry values.
#[verifier::opaque]
pub open spec fn pass_partial_s(
    objects: Seq<Sphere>,
    cam: Camera,
    s: RayWorkerSettings,
    entry_acc: Seq<Color>,
    entry_srgb: Seq<Color>,
    acc: Seq<Color>,
    srgb: Seq<Color>,
    count: int,
    x: int,
    y: int,
) -> bool {
    &&& acc.len() == entry_acc.len()
    &&& srgb.len() == entry_srgb.len()
    &&& entry_srgb.len() == entry_acc.len()
    &&& forall|px: int, py: int|
        0 <= px < s.screen_size.0 && s.bound_y.0 <= py < s.bound_y.1 && (py < y || (py == y && px
            < x)) ==> #[trigger] pixel_pass_ok(objects, cam, s, entry_acc, acc, srgb, count, px, py)
    &&& forall|px: int, py: int|
        #![trigger band_index_s(s, px, py)]
        0 <= px < s.screen_size.0 && s.bound_y.0 <= py < s.bound_y.1 && !(py < y || (py == y && px
            < x)) ==> acc[band_index_s(s, px, py)] == entry_acc[band_index_s(s, px, py)]
            && srgb[band_index_s(s, px, py)] == entry_srgb[band_index_s(s, px, py)]
}

/// One pixel's sample advances the pass state by one column.
proof fn lemma_pass_step(
    objects: Seq<Sphere>,
    cam: Camera,
    s: RayWorkerSettings,
    entry_acc: Seq<Color>,
    entry_srgb: Seq<Color>,
    pre_acc: Seq<Color>,
    pre_srgb: Seq<Color>,
    post_acc: Seq<Color>,
    post_srgb: Seq<Color>,
    count: int,
    x: int,
    y: int,
    c: Color,
)
    requires
        worker_settings_ok(s),
        entry_acc.len() == band_size_s(s),
        pass_partial_s(objects, cam, s, entry_acc, entry_srgb, pre_acc, pre_srgb, count, x, y),
        0 <= x < s.screen_size.0,
        s.bound_y.0 <= y < s.bound_y.1,
        pixel_sample_rel(objects, cam, s, x, y, c),
        post_acc == pre_acc.update(
            band_index_s(s, x, y),
            vadd_s(pre_acc[band_index_s(s, x, y)], c),
        ),
        post_srgb == pre_srgb.update(
            band_index_s(s, x, y),
            gamma_color_s(post_acc[band_index_s(s, x, y)], count),
        ),
    ensures
        pass_partial_s(objects, cam, s, entry_acc, entry_srgb, post_acc, post_srgb, count, x + 1, y),
{
    reveal(pass_partial_s);
    lemma_band_index_in_range(s, x, y);
    let idx = band_index_s(s, x, y);
    assert forall|px: int, py: int|
        0 <= px < s.screen_size.0 && s.bound_y.0 <= py < s.bound_y.1 && (py < y || (py == y && px
            < x + 1)) implies #[trigger] pixel_pass_ok(
        objects,
        cam,
        s,
        entry_acc,
        post_acc,
        post_srgb,
        count,
        px,
        py,
    ) by {
        lemma_band_index_in_range(s, px, py);
        if px == x && py == y {
            assert(pre_acc[idx] == entry_acc[idx]);
            assert(pixel_sample_rel(objects, cam, s, px, py, c));
            assert(post_acc[idx] == vadd_s(entry_acc[idx], c));
        } else {
            lemma_band_index_injective(s, px, py, x, y);
            assert(py < y || (py == y && px < x));
            assert(pixel_pass_ok(objects, cam, s, entry_acc, pre_acc, pre_srgb, count, px, py));
            let c0 = choose|c0: Color|
                #[trigger] pixel_sample_rel(objects, cam, s, px, py, c0) && pre_acc[band_index_s(
                    s,
                    px,
                    py,
                )] == vadd_s(entry_acc[band_index_s(s, px, py)], c0) && pre_srgb[band_index_s(
                    s,
                    px,
                    py,
                )] == gamma_color_s(pre_acc[band_index_s(s, px, py)], count);
            assert(post_acc[band_index_s(s, px, py)] == pre_acc[band_index_s(s, px, py)]);
            assert(post_srgb[band_index_s(s, px, py)] == pre_srgb[band_index_s(s, px, py)]);
            assert(pixel_sample_rel(objects, cam, s, px, py, c0));
        }
    }
    assert forall|px: int, py: int|
        0 <= px < s.screen_size.0 && s.bound_y.0 <= py < s.bound_y.1 && !(py < y || (py == y && px
            < x + 1)) implies post_acc[#[trigger] band_index_s(s, px, py)] == entry_acc[band_index_s(
        s,
        px,
        py,
    )] && post_srgb[band_index_s(s, px, py)] == entry_srgb[band_index_s(s, px, py)] by {
        lemma_band_index_in_range(s, px, py);
        lemma_band_index_injective(s, px, py, x, y);
    }
}

/// A finished row folds into the start of the next one.
proof fn lemma_pass_row_wrap(
    objects: Seq<Sphere>,
    cam: Camera,
    s: RayWorkerSettings,
    entry_acc: Seq<Color>,
    entry_srgb: Seq<Color>,
    acc: Seq<Color>,
    srgb: Seq<Color>,
    count: int,
    y: int,
)
    requires
        pass_partial_s(
            objects,
            cam,
            s,
            entry_acc,
            entry_srgb,
            acc,
            srgb,
            count,
            s.screen_size.0 as int,
            y,
        ),
    ensures
        pass_partial_s(objects, cam, s, entry_acc, entry_srgb, acc, srgb, count, 0, y + 1),
{
    reveal(pass_partial_s);
    assert forall|px: int, py: int|
        0 <= px < s.screen_size.0 && s.bound_y.0 <= py < s.bound_y.1 && (py < y + 1 || (py == y + 1
            && px < 0)) implies #[trigger] pixel_pass_ok(
        objects,
        cam,
        s,
        entry_acc,
        acc,
        srgb,
        count,
        px,
        py,
    ) by {
        assert(py < y || (py == y && px < s.screen_size.0));
    }
}

/// A pass swept to the top of the band satisfies the pass relation.
proof fn lemma_pass_complete(
    objects: Seq<Sphere>,
    cam: Camera,
    s: RayWorkerSettings,
    entry_acc: Seq<Color>,
    entry_srgb: Seq<Color>,
    acc: Seq<Color>,
    srgb: Seq<Color>,
    count: int,
)
    requires
        pass_partial_s(
            objects,
            cam,
            s,
            entry_acc,
            entry_srgb,
            acc,
            srgb,
            count,
            0,
            s.bound_y.1 as int,
        ),
    ensures
        pass_rel(objects, cam, s, entry_acc, acc, srgb, count),
{
    reveal(pass_partial_s);
    reveal(pass_rel);
    assert forall|x: int, y: int|
        0 <= x < s.screen_size.0 && s.bound_y.0 <= y < s.bound_y.1 implies #[trigger] pixel_pass_ok(
        objects,
        cam,
        s,
        entry_acc,
        acc,
        srgb,
        count,
        x,
        y,
    ) by {
        assert(y < s.bound_y.1);
    }
}


/// Before any pixel is swept the pass state holds trivially.
proof fn lemma_pass_start(
    objects: Seq<Sphere>,
    cam: Camera,
    s: RayWorkerSettings,
    entry_acc: Seq<Color>,
    entry_srgb: Seq<Color>,
    count: int,
)
    requires
        entry_srgb.len() == entry_acc.len(),
    ensures
        pass_partial_s(
            objects,
            cam,
            s,
            entry_acc,
            entry_srgb,
            entry_acc,
            entry_srgb,
            count,
            0,
            s.bound_y.0 as int,
        ),
{
    reveal(pass_partial_s);
}

/// A traced colour for some lens sample at the jittered coordinates
/// is an admissible pixel sample.
#[verifier::spinoff_prover]
proof fn lemma_pixel_sample_from_trace(
    objects: Seq<Sphere>,
    cam: Camera,
    s: RayWorkerSettings,
    x: int,
    y: int,
    u1: int,
    v1: int,
    c: Color,
)
    requires
        0 <= u1 < SCALE,
        0 <= v1 < SCALE,
        exists|disk: Vec3|
            {
                &&& vec_ok(disk)
                &&& disk.z == 0
                &&& #[trigger] square_len_s(disk) < SCALE
                &&& trace_rel(
                    objects,
                    camera_ray_s(
                        cam,
                        jitter_coord_s(x, s.screen_size.0 as int, u1),
                        jitter_coord_s(y, s.screen_size.1 as int, v1),
                        disk,
                    ),
                    s.bound_limit as nat,
                    c,
                )
            },
    ensures
        pixel_sample_rel(objects, cam, s, x, y, c),
{
    reveal(pixel_sample_rel);
    let disk0 = choose|disk: Vec3|
        vec_ok(disk) && disk.z == 0 && #[trigger] square_len_s(disk) < SCALE && trace_rel(
            objects,
            camera_ray_s(
                cam,
                jitter_coord_s(x, s.screen_size.0 as int, u1),
                jitter_coord_s(y, s.screen_size.1 as int, v1),
                disk,
            ),
            s.bound_limit as nat,
            c,
        );
    assert(trace_rel(
        objects,
        camera_ray_s(
            cam,
            jitter_coord_s(x, s.screen_size.0 as int, u1),
            jitter_coord_s(y, s.screen_size.1 as int, v1),
            disk0,
        ),
        s.bound_limit as nat,
        c,
    ));
}

impl RayWorker {
    /// A worker for the given band, its buffers zeroed.
    pub fn new(world: World, camera: Camera, settings: RayWorkerSettings) -> (r: RayWorker)
        requires
            world_ok(world),
            camera_ok(camera),
            worker_settings_ok(settings),
        ensures
            worker_ok(r),
            r.settings == settings,
            r.world == world,
            r.camera == camera,
            forall|i: int|
                0 <= i < r.accumulated_buffer@.len() ==> #[trigger] r.accumulated_buffer@[i]
                    == (Vec3 { x: 0i64, y: 0i64, z: 0i64 }),
            forall|i: int|
                0 <= i < r.srgb_buffer@.len() ==> #[trigger] r.srgb_buffer@[i] == (Vec3 {
                    x: 0i64,
                    y: 0i64,
                    z: 0i64,
                }),
    {
        let y_size: usize = settings.bound_y.1 - settings.bound_y.0;
        proof {
            assert(settings.screen_size.0 * y_size <= MAX_SCREEN_DIM * MAX_SCREEN_DIM)
                by (nonlinear_arith)
                requires
                    0 <= settings.screen_size.0 <= MAX_SCREEN_DIM,
                    0 <= y_size <= MAX_SCREEN_DIM,
            {
            }
        }
        let buffer_size: usize = settings.screen_size.0 * y_size;

        let mut accumulated_buffer: Vec<Color> = Vec::new();
        let mut i: usize = 0;
        while i < buffer_size
            invariant
                i <= buffer_size,
                accumulated_buffer@.len() == i,
                forall|j: int|
                    0 <= j < i ==> #[trigger] accumulated_buffer@[j] == (Vec3 {
                        x: 0i64,
                        y: 0i64,
                        z: 0i64,
                    }),
            decreases buffer_size - i,
        {
            accumulated_buffer.push(Color::new(0, 0, 0));
            i = i + 1;
        }

        let mut srgb_buffer: Vec<Color> = Vec::new();
        let mut j: usize = 0;
        while j < buffer_size
            invariant
                j <= buffer_size,
                srgb_buffer@.len() == j,
                forall|k: int|
                    0 <= k < j ==> #[trigger] srgb_buffer@[k] == (Vec3 {
                        x: 0i64,
                        y: 0i64,
                        z: 0i64,
                    }),
            decreases buffer_size - j,
        {
            srgb_buffer.push(Color::new(0, 0, 0));
            j = j + 1;
        }

        RayWorker { world, camera, accumulated_buffer, srgb_buffer, settings }
    }

    /// The colour seen along `ray`, following up to `bound_count`
    /// bounces; a ray that misses everything, exhausts its bounces or
    /// is absorbed sees the sky.
    #[verifier::rlimit(60)]
    pub fn reflect_ray_recursive(&self, ray: &Ray, bound_count: u32, rng: &mut Rng) -> (r: Color)
        requires
            world_ok(self.world),
            ray_ok(*ray),
        ensures
            vec_ok(r),
            bound_count == 0 ==> r == sky_color_s(*ray),
            world_misses_s(self.world.objects@, *ray, HIT_T_MIN as int, FP_MAX as int) ==> r
                == sky_color_s(*ray),
            trace_rel(self.world.objects@, *ray, bound_count as nat, r),
        decreases bound_count,
    {
        if bound_count == 0 {
            let sky: Color = self.world.get_sky_color(ray);
            proof {
                lemma_trace_terminal(self.world.objects@, *ray, bound_count as nat, sky);
            }
            return sky;
        }

        let hit_record = self.world.world_hit(ray, HIT_T_MIN, FP_MAX);

        match hit_record {
            Ok(record) => {
                proof {
                    let i = choose|i: int|
                        0 <= i < self.world.objects@.len() && #[trigger] sphere_hit_t_s(
                            self.world.objects@[i],
                            *ray,
                            HIT_T_MIN as int,
                            FP_MAX as int,
                        ) == Some(record.weight as int) && record == sphere_record_s(
                            self.world.objects@[i],
                            *ray,
                            record.weight as int,
                        );
                    assert(sphere_ok(self.world.objects@[i]));
                }
                let material_result = record.material.scatter(ray, &record, rng);
                match material_result {
                    Some(result) => {
                        let bounced: Color = self.reflect_ray_recursive(
                            &result.scattered_ray,
                            bound_count - 1,
                            rng,
                        );
                        let traced: Color = result.attenuation.mul_vec(&bounced);
                        proof {
                            lemma_trace_step_hit(
                                self.world.objects@,
                                *ray,
                                bound_count as nat,
                                record,
                                material_result,
                                bounced,
                                traced,
                            );
                        }
                        traced
                    },
                    None => {
                        let sky: Color = self.world.get_sky_color(ray);
                        proof {
                            lemma_trace_step_hit(
                                self.world.objects@,
                                *ray,
                                bound_count as nat,
                                record,
                                material_result,
                                sky,
                                sky,
                            );
                        }
                        sky
                    },
                }
            },
            Err(()) => {
                let sky: Color = self.world.get_sky_color(ray);
                proof {
                    lemma_trace_terminal(self.world.objects@, *ray, bound_count as nat, sky);
                }
                sky
            },
        }
    }

    /// The colour seen along `ray` at the configured bounce limit.
    pub fn ray_color(&self, ray: &Ray, rng: &mut Rng) -> (r: Color)
        requires
            world_ok(self.world),
            ray_ok(*ray),
        ensures
            vec_ok(r),
            self.settings.bound_limit == 0 ==> r == sky_color_s(*ray),
            world_misses_s(self.world.objects@, *ray, HIT_T_MIN as int, FP_MAX as int) ==> r
                == sky_color_s(*ray),
            trace_rel(self.world.objects@, *ray, self.settings.bound_limit as nat, r),
    {
        self.reflect_ray_recursive(ray, self.settings.bound_limit, rng)
    }

    /// One jittered camera sample for the pixel at `screen_pos`: the
    /// pixel coordinate plus a unit draw, normalised by the screen
    /// span, aimed through the camera, and traced.
    pub fn sample_ray(&self, screen_pos: (usize, usize), rng: &mut Rng) -> (r: Color)
        requires
            world_ok(self.world),
            camera_ok(self.camera),
            worker_settings_ok(self.settings),
            screen_pos.0 < self.settings.screen_size.0,
            screen_pos.1 < self.settings.screen_size.1,
        ensures
            vec_ok(r),
            ({
                let u = jitter_coord_s(
                    screen_pos.0 as int,
                    self.settings.screen_size.0 as int,
                    unit_sample_s(next_state_s(old(rng).state)),
                );
                let v = jitter_coord_s(
                    screen_pos.1 as int,
                    self.settings.screen_size.1 as int,
                    unit_sample_s(next_state_s(next_state_s(old(rng).state))),
                );
                exists|disk: Vec3|
                    {
                        &&& vec_ok(disk)
                        &&& disk.z == 0
                        &&& #[trigger] square_len_s(disk) < SCALE
                        &&& trace_rel(
                            self.world.objects@,
                            camera_ray_s(self.camera, u, v, disk),
                            self.settings.bound_limit as nat,
                            r,
                        )
                    }
            }),
    {
        let u_rand: i64 = rng.next_unit();
        let u: i64 = fdiv(
            fadd((screen_pos.0 as i64) * SCALE, u_rand),
            ((self.settings.screen_size.0 - 1) as i64) * SCALE,
        );
        let v_rand: i64 = rng.next_unit();
        let v: i64 = fdiv(
            fadd((screen_pos.1 as i64) * SCALE, v_rand),
            ((self.settings.screen_size.1 - 1) as i64) * SCALE,
        );

        let ray: Ray = self.camera.get_ray(u, v, rng);
        let color: Color = self.ray_color(&ray, rng);
        proof {
            reveal(jitter_coord_s);
            let disk0 = choose|disk: Vec3|
                vec_ok(disk) && disk.z == 0 && #[trigger] square_len_s(disk) < SCALE && ray
                    == camera_ray_s(self.camera, u as int, v as int, disk);
            assert(trace_rel(
                self.world.objects@,
                camera_ray_s(self.camera, u as int, v as int, disk0),
                self.settings.bound_limit as nat,
                color,
            ));
        }
        color
    }

    /// Fold one new sample for the pixel at `position` into the
    /// accumulation buffer, and refresh that pixel of the output
    /// buffer with the gamma-corrected running average over
    /// `sample_count` samples.
    pub fn apply_color(&mut self, position: (usize, usize), color: &Color, sample_count: u32)
        requires
            worker_ok(*old(self)),
            vec_ok(*color),
            sample_count >= 1,
            position.0 < old(self).settings.screen_size.0,
            old(self).settings.bound_y.0 <= position.1 < old(self).settings.bound_y.1,
        ensures
            worker_ok(*final(self)),
            final(self).settings == old(self).settings,
            final(self).world == old(self).world,
            final(self).camera == old(self).camera,
            ({
                let idx = band_index_s(old(self).settings, position.0 as int, position.1 as int);
                let new_sum = vadd_s(old(self).accumulated_buffer@[idx], *color);
                &&& final(self).accumulated_buffer@ == old(self).accumulated_buffer@.update(
                    idx,
                    new_sum,
                )
                &&& final(self).srgb_buffer@ == old(self).srgb_buffer@.update(
                    idx,
                    gamma_color_s(new_sum, sample_count as int),
                )
            }),
    {
        let offseted_y: usize = position.1 - self.settings.bound_y.0;
        proof {
            lemma_band_index_in_range(self.settings, position.0 as int, position.1 as int);
            assert(self.settings.screen_size.0 * (offseted_y as int) == self.settings.screen_size.0
                * (position.1 - self.settings.bound_y.0)) by (nonlinear_arith)
                requires
                    offseted_y == position.1 - self.settings.bound_y.0,
            {
            }
        }
        let index: usize = self.settings.screen_size.0 * offseted_y + position.0;

        let summed: Color = self.accumulated_buffer[index].add(color);
        self.accumulated_buffer.set(index, summed);

        let divisor: i64 = (sample_count as i64) * SCALE;
        let corrected: Color = Color::new(
            fclamp(fsqrt(fdiv(summed.x, divisor)), 0, SCALE),
            fclamp(fsqrt(fdiv(summed.y, divisor)), 0, SCALE),
            fclamp(fsqrt(fdiv(summed.z, divisor)), 0, SCALE),
        );
        self.srgb_buffer.set(index, corrected);
    }

    /// Take one sample for the pixel at `position`: trace one jittered
    /// camera ray, fold the colour into the accumulator, and refresh
    /// the pixel's gamma-corrected output entry.
    #[verifier::spinoff_prover]
    #[verifier::rlimit(100)]
    pub fn sample_pixel(&mut self, position: (usize, usize), sample_count: u32, rng: &mut Rng)
        requires
            worker_ok(*old(self)),
            sample_count >= 1,
            position.0 < old(self).settings.screen_size.0,
            old(self).settings.bound_y.0 <= position.1 < old(self).settings.bound_y.1,
        ensures
            worker_ok(*final(self)),
            final(self).settings == old(self).settings,
            final(self).world == old(self).world,
            final(self).camera == old(self).camera,
            exists|c: Color|
                #[trigger] pixel_sample_rel(
                    old(self).world.objects@,
                    old(self).camera,
                    old(self).settings,
                    position.0 as int,
                    position.1 as int,
                    c,
                ) && final(self).accumulated_buffer@ == old(self).accumulated_buffer@.update(
                    band_index_s(old(self).settings, position.0 as int, position.1 as int),
                    vadd_s(
                        old(self).accumulated_buffer@[band_index_s(
                            old(self).settings,
                            position.0 as int,
                            position.1 as int,
                        )],
                        c,
                    ),
                ) && final(self).srgb_buffer@ == old(self).srgb_buffer@.update(
                    band_index_s(old(self).settings, position.0 as int, position.1 as int),
                    gamma_color_s(
                        final(self).accumulated_buffer@[band_index_s(
                            old(self).settings,
                            position.0 as int,
                            position.1 as int,
                        )],
                        sample_count as int,
                    ),
                ),
    {
        let ghost pre_state = rng.state;
        let final_color: Color = self.sample_ray(position, rng);
        proof {
            crate::rng::lemma_unit_sample_bounds(next_state_s(pre_state));
            crate::rng::lemma_unit_sample_bounds(next_state_s(next_state_s(pre_state)));
            lemma_pixel_sample_from_trace(
                self.world.objects@,
                self.camera,
                self.settings,
                position.0 as int,
                position.1 as int,
                unit_sample_s(next_state_s(pre_state)),
                unit_sample_s(next_state_s(next_state_s(pre_state))),
                final_color,
            );
            lemma_band_index_in_range(self.settings, position.0 as int, position.1 as int);
        }
        self.apply_color(position, &final_color, sample_count);
    }

    /// Render one full sample pass over the band, pixel by pixel, and
    /// return the refreshed band snapshot: every band pixel gains one
    /// admissible sample in the accumulator, and the snapshot holds
    /// the gamma-corrected running averages. `sample_count` is the
    /// one-based number of this pass, counting every pass so far.
    #[verifier::rlimit(100)]
    pub fn render_sample_pass(&mut self, sample_count: u32, rng: &mut Rng) -> (r: RayResult)
        requires
            worker_ok(*old(self)),
            sample_count >= 1,
        ensures
            worker_ok(*final(self)),
            final(self).settings == old(self).settings,
            final(self).world == old(self).world,
            final(self).camera == old(self).camera,
            r.bound_y == old(self).settings.bound_y,
            r.srgb_buffer@.len() == band_size_s(old(self).settings),
            r.srgb_buffer@ =~= final(self).srgb_buffer@,
            pass_rel(
                old(self).world.objects@,
                old(self).camera,
                old(self).settings,
                old(self).accumulated_buffer@,
                final(self).accumulated_buffer@,
                r.srgb_buffer@,
                sample_count as int,
            ),
    {
        let start_y: usize = self.settings.bound_y.0;
        let end_y: usize = self.settings.bound_y.1;
        let width: usize = self.settings.screen_size.0;
        let ghost entry_acc = self.accumulated_buffer@;
        let ghost entry_srgb = self.srgb_buffer@;
        proof {
            lemma_pass_start(
                self.world.objects@,
                self.camera,
                self.settings,
                entry_acc,
                entry_srgb,
                sample_count as int,
            );
        }

        let mut y: usize = start_y;
        while y < end_y
            invariant
                worker_ok(*self),
                self.settings == old(self).settings,
                self.world == old(self).world,
                self.camera == old(self).camera,
                entry_acc == old(self).accumulated_buffer@,
                entry_srgb == old(self).srgb_buffer@,
                entry_acc.len() == band_size_s(self.settings),
                entry_srgb.len() == entry_acc.len(),
                start_y == self.settings.bound_y.0,
                end_y == self.settings.bound_y.1,
                width == self.settings.screen_size.0,
                start_y <= y <= end_y,
                sample_count >= 1,
                pass_partial_s(
                    self.world.objects@,
                    self.camera,
                    self.settings,
                    entry_acc,
                    entry_srgb,
                    self.accumulated_buffer@,
                    self.srgb_buffer@,
                    sample_count as int,
                    0,
                    y as int,
                ),
            decreases end_y - y,
        {
            let mut x: usize = 0;
            while x < width
                invariant
                    worker_ok(*self),
                    self.settings == old(self).settings,
                    self.world == old(self).world,
                    self.camera == old(self).camera,
                    entry_acc == old(self).accumulated_buffer@,
                    entry_srgb == old(self).srgb_buffer@,
                    entry_acc.len() == band_size_s(self.settings),
                    entry_srgb.len() == entry_acc.len(),
                    start_y == self.settings.bound_y.0,
                    end_y == self.settings.bound_y.1,
                    width == self.settings.screen_size.0,
                    start_y <= y < end_y,
                    x <= width,
                    sample_count >= 1,
                    pass_partial_s(
                        self.world.objects@,
                        self.camera,
                        self.settings,
                        entry_acc,
                        entry_srgb,
                        self.accumulated_buffer@,
                        self.srgb_buffer@,
                        sample_count as int,
                        x as int,
                        y as int,
                    ),
                decreases width - x,
            {
                let ghost pre_acc = self.accumulated_buffer@;
                let ghost pre_srgb = self.srgb_buffer@;
                self.sample_pixel((x, y), sample_count, rng);
                proof {
                    let c0 = choose|c0: Color|
                        #[trigger] pixel_sample_rel(
                            self.world.objects@,
                            self.camera,
                            self.settings,
                            x as int,
                            y as int,
                            c0,
                        ) && self.accumulated_buffer@ == pre_acc.update(
                            band_index_s(self.settings, x as int, y as int),
                            vadd_s(pre_acc[band_index_s(self.settings, x as int, y as int)], c0),
                        ) && self.srgb_buffer@ == pre_srgb.update(
                            band_index_s(self.settings, x as int, y as int),
                            gamma_color_s(
                                self.accumulated_buffer@[band_index_s(
                                    self.settings,
                                    x as int,
                                    y as int,
                                )],
                                sample_count as int,
                            ),
                        );
                    lemma_pass_step(
                        self.world.objects@,
                        self.camera,
                        self.settings,
                        entry_acc,
                        entry_srgb,
                        pre_acc,
                        pre_srgb,
                        self.accumulated_buffer@,
                        self.srgb_buffer@,
                        sample_count as int,
                        x as int,
                        y as int,
                        c0,
                    );
                }
                x = x + 1;
            }
            proof {
                lemma_pass_row_wrap(
                    self.world.objects@,
                    self.camera,
                    self.settings,
                    entry_acc,
                    entry_srgb,
                    self.accumulated_buffer@,
                    self.srgb_buffer@,
                    sample_count as int,
                    y as int,
                );
            }
            y = y + 1;
        }

        let result = RayResult {
            srgb_buffer: self.srgb_buffer.clone(),
            bound_y: self.settings.bound_y,
        };
        proof {
            lemma_pass_complete(
                self.world.objects@,
                self.camera,
                self.settings,
                entry_acc,
                entry_srgb,
                self.accumulated_buffer@,
                self.srgb_buffer@,
                sample_count as int,
            );
            assert(result.srgb_buffer@ =~= self.srgb_buffer@);
        }
        result
    }

    /// Run every sample pass for the band. The worker yields exactly
    /// `sample_count` snapshots, in increasing-sample order, each
    /// covering exactly its assigned band.
    pub fn run(&mut self, rng: &mut Rng) -> (r: Vec<RayResult>)
        requires
            worker_ok(*old(self)),
        ensures
            worker_ok(*final(self)),
            final(self).settings == old(self).settings,
            r@.len() == old(self).settings.sample_count,
            forall|k: int|
                0 <= k < r@.len() ==> (#[trigger] r@[k]).bound_y == old(self).settings.bound_y
                    && r@[k].srgb_buffer@.len() == band_size_s(old(self).settings),
            exists|accs: Seq<Seq<Color>>|
                #[trigger] run_history_rel(
                    old(self).world.objects@,
                    old(self).camera,
                    old(self).settings,
                    accs,
                    r@,
                ) && accs[0] == old(self).accumulated_buffer@ && accs[accs.len() - 1]
                    == final(self).accumulated_buffer@,
    {
        let total: u32 = self.settings.sample_count;
        let mut results: Vec<RayResult> = Vec::new();
        let mut sample_index: u32 = 0;
        let ghost mut accs: Seq<Seq<Color>> = seq![self.accumulated_buffer@];
        while sample_index < total
            invariant
                worker_ok(*self),
                self.settings == old(self).settings,
                self.world == old(self).world,
                self.camera == old(self).camera,
                total == self.settings.sample_count,
                sample_index <= total,
                results@.len() == sample_index,
                accs.len() == results@.len() + 1,
                accs[0] == old(self).accumulated_buffer@,
                accs[accs.len() - 1] == self.accumulated_buffer@,
                forall|k: int|
                    0 <= k < results@.len() ==> #[trigger] pass_rel(
                        old(self).world.objects@,
                        old(self).camera,
                        old(self).settings,
                        accs[k],
                        accs[k + 1],
                        results@[k].srgb_buffer@,
                        k + 1,
                    ),
                forall|k: int|
                    0 <= k < results@.len() ==> (#[trigger] results@[k]).bound_y == old(
                        self,
                    ).settings.bound_y && results@[k].srgb_buffer@.len() == band_size_s(
                        old(self).settings,
                    ),
            decreases total - sample_index,
        {
            let snapshot: RayResult = self.render_sample_pass(sample_index + 1, rng);
            results.push(snapshot);
            proof {
                accs = accs.push(self.accumulated_buffer@);
            }
            sample_index = sample_index + 1;
        }
        proof {
            assert(run_history_rel(
                old(self).world.objects@,
                old(self).camera,
                old(self).settings,
                accs,
                results@,
            ));
        }
        results
    }
}

} // verus!
