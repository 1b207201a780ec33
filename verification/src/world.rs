//! The scene: an ordered collection of spheres, queried for the
//! closest intersection, and the sky that misses fall back to.

use vstd::prelude::*;
use crate::fixed::{SCALE, fp_ok, add_fp, sub_fp, mul_fp, fadd, fsub, fmul};
use crate::vec3::{Vec3, Color, vec_ok, vadd_s, vscale_s, unit_s};
use crate::ray::{Ray, ray_ok};
use crate::object::{
    Sphere, HitRecord, sphere_ok, rec_ok, sphere_hit_t_s, sphere_record_s, lemma_sphere_hit_shrink,
};

verus! {

/// The scene holds its objects in order; the order never affects
/// which hit a query returns.
pub struct World {
    pub objects: Vec<Sphere>,
}

impl Clone for World {
    /// A deep copy of the scene, so each worker can own one.
    fn clone(&self) -> (r: Self)
        ensures
            r.objects@ =~= self.objects@,
    {
        World { objects: self.objects.clone() }
    }
}

/// Every object of the scene is a well-formed sphere.
pub open spec fn world_ok(w: World) -> bool {
    forall|i: int| 0 <= i < w.objects@.len() ==> sphere_ok(#[trigger] w.objects@[i])
}

/// No object of the sequence intersects the ray within the interval.
pub open spec fn world_misses_s(objects: Seq<Sphere>, ray: Ray, t_min: int, t_max: int) -> bool {
    forall|i: int|
        0 <= i < objects.len() ==> (#[trigger] sphere_hit_t_s(objects[i], ray, t_min, t_max))
            is None
}

/// `t` is the parameter of the closest hit: some object hits at `t`,
/// and no object hits earlier.
pub open spec fn world_best_t_s(
    objects: Seq<Sphere>,
    ray: Ray,
    t_min: int,
    t_max: int,
    t: int,
) -> bool {
    &&& exists|i: int|
        0 <= i < objects.len() && #[trigger] sphere_hit_t_s(objects[i], ray, t_min, t_max) == Some(
            t,
        )
    &&& forall|i: int|
        0 <= i < objects.len() && (#[trigger] sphere_hit_t_s(objects[i], ray, t_min, t_max))
            is Some ==> t <= sphere_hit_t_s(objects[i], ray, t_min, t_max)->0
}

/// What a successful scene query returns: a well-formed record of a
/// real hit of some object, at the closest hit parameter within the
/// interval.
pub open spec fn world_hit_rel(
    objects: Seq<Sphere>,
    ray: Ray,
    t_min: int,
    t_max: int,
    rec: HitRecord,
) -> bool {
    &&& t_min <= rec.weight <= t_max
    &&& rec_ok(rec)
    &&& world_best_t_s(objects, ray, t_min, t_max, rec.weight as int)
    &&& exists|i: int|
        0 <= i < objects.len() && #[trigger] sphere_hit_t_s(objects[i], ray, t_min, t_max) == Some(
            rec.weight as int,
        ) && rec == sphere_record_s(objects[i], ray, rec.weight as int)
}

/// The sky a missed ray sees: a vertical gradient from white at the
/// bottom to light blue at the top, blended by the normalised y
/// component of the direction.
pub open spec fn sky_color_s(ray: Ray) -> Color {
    let t = mul_fp(500_000, add_fp(unit_s(ray.direction).y as int, SCALE as int));
    vadd_s(
        vscale_s(Vec3 { x: SCALE, y: SCALE, z: SCALE }, sub_fp(SCALE as int, t)),
        vscale_s(Vec3 { x: 500_000, y: 700_000, z: SCALE }, t),
    )
}

impl World {
    /// An empty scene.
    pub fn new_default() -> (r: World)
        ensures
            r.objects@.len() == 0,
            world_ok(r),
    {
        World { objects: Vec::new() }
    }

    /// A scene holding one object.
    pub fn new(object: Sphere) -> (r: World)
        requires
            sphere_ok(object),
        ensures
            r.objects@ =~= seq![object],
            world_ok(r),
    {
        let mut objects: Vec<Sphere> = Vec::new();
        objects.push(object);
        World { objects }
    }

    /// The closest hit of `ray` against any object, within
    /// `[weight_min, weight_max]`; `Err` when every object misses.
    pub fn world_hit(&self, ray: &Ray, weight_min: i64, weight_max: i64) -> (r: Result<
        HitRecord,
        (),
    >)
        requires
            world_ok(*self),
            ray_ok(*ray),
            fp_ok(weight_min as int),
            fp_ok(weight_max as int),
        ensures
            r is Err <==> world_misses_s(self.objects@, *ray, weight_min as int, weight_max as int),
            r is Ok ==> world_hit_rel(
                self.objects@,
                *ray,
                weight_min as int,
                weight_max as int,
                r->Ok_0,
            ),
    {
        let ghost tmin = weight_min as int;
        let ghost tmax = weight_max as int;
        let mut closest_so_far: i64 = weight_max;
        let mut hit_record: Option<HitRecord> = None;
        let object_count: usize = self.objects.len();
        let mut i: usize = 0;
        while i < object_count
            invariant
                world_ok(*self),
                ray_ok(*ray),
                fp_ok(tmin),
                fp_ok(tmax),
                tmin == weight_min as int,
                tmax == weight_max as int,
                object_count == self.objects@.len(),
                0 <= i <= object_count,
                fp_ok(closest_so_far as int),
                closest_so_far <= weight_max,
                hit_record is None ==> closest_so_far == weight_max,
                hit_record is None ==> forall|j: int|
                    0 <= j < i ==> (#[trigger] sphere_hit_t_s(self.objects@[j], *ray, tmin, tmax))
                        is None,
                hit_record is Some ==> {
                    let rec = hit_record->0;
                    &&& closest_so_far == rec.weight
                    &&& weight_min <= rec.weight <= weight_max
                    &&& rec_ok(rec)
                    &&& exists|j: int|
                        0 <= j < i && #[trigger] sphere_hit_t_s(self.objects@[j], *ray, tmin, tmax)
                            == Some(rec.weight as int) && rec == sphere_record_s(
                            self.objects@[j],
                            *ray,
                            rec.weight as int,
                        )
                    &&& forall|j: int|
                        0 <= j < i && (#[trigger] sphere_hit_t_s(self.objects@[j], *ray, tmin, tmax))
                            is Some ==> rec.weight <= sphere_hit_t_s(
                            self.objects@[j],
                            *ray,
                            tmin,
                            tmax,
                        )->0
                },
            decreases object_count - i,
        {
            let object: &Sphere = &self.objects[i];
            proof {
                lemma_sphere_hit_shrink(self.objects@[i as int], *ray, tmin, closest_so_far as int, tmax);
            }
            match object.hit(ray, weight_min, closest_so_far) {
                Ok(record) => {
                    closest_so_far = record.weight;
                    hit_record = Some(record);
                },
                Err(()) => {},
            }
            i = i + 1;
        }

        match hit_record {
            Some(record) => Ok(record),
            None => Err(()),
        }
    }

    /// Append an object to the scene.
    pub fn add_object(&mut self, object: Sphere)
        requires
            sphere_ok(object),
        ensures
            final(self).objects@ =~= old(self).objects@.push(object),
            world_ok(*old(self)) ==> world_ok(*final(self)),
    {
        self.objects.push(object);
    }

    /// Remove every object from the scene.
    pub fn clear_all_objects(&mut self)
        ensures
            final(self).objects@.len() == 0,
            world_ok(*final(self)),
    {
        self.objects.clear();
    }

    /// The colour of the sky in the direction of `ray`.
    pub fn get_sky_color(&self, ray: &Ray) -> (r: Color)
        requires
            ray_ok(*ray),
        ensures
            r == sky_color_s(*ray),
            vec_ok(r),
    {
        let unit_direction: Vec3 = ray.get_direction().get_normal();
        let t: i64 = fmul(500_000, fadd(unit_direction.y, SCALE));
        let white: Color = Color::new(SCALE, SCALE, SCALE);
        let light_blue: Color = Color::new(500_000, 700_000, SCALE);
        white.mul_scalar(fsub(SCALE, t)).add(&light_blue.mul_scalar(t))
    }
}

/// The closest-hit parameter is unique: two parameters that are both
/// best over the same objects are equal.
pub proof fn lemma_world_best_t_unique(
    objects: Seq<Sphere>,
    ray: Ray,
    t_min: int,
    t_max: int,
    t1: int,
    t2: int,
)
    requires
        world_best_t_s(objects, ray, t_min, t_max, t1),
        world_best_t_s(objects, ray, t_min, t_max, t2),
    ensures
        t1 == t2,
{
}

/// Reordering the scene changes nothing a query can observe: over two
/// sequences holding the same objects, the same rays miss, and any
/// best hit parameter of one is a best hit parameter of the other.
pub proof fn lemma_world_hit_order_independent(
    s1: Seq<Sphere>,
    s2: Seq<Sphere>,
    ray: Ray,
    t_min: int,
    t_max: int,
)
    requires
        s1.to_multiset() == s2.to_multiset(),
    ensures
        world_misses_s(s1, ray, t_min, t_max) == world_misses_s(s2, ray, t_min, t_max),
        forall|t: int|
            #[trigger] world_best_t_s(s1, ray, t_min, t_max, t) <==> world_best_t_s(
                s2,
                ray,
                t_min,
                t_max,
                t,
            ),
{
    s1.to_multiset_ensures();
    s2.to_multiset_ensures();
    assert forall|x: Sphere| s1.contains(x) <==> s2.contains(x) by {
        assert(s1.contains(x) <==> s1.to_multiset().count(x) > 0);
        assert(s2.contains(x) <==> s2.to_multiset().count(x) > 0);
    }
    if world_misses_s(s1, ray, t_min, t_max) {
        lemma_misses_from_contains(s1, s2, ray, t_min, t_max);
    }
    if world_misses_s(s2, ray, t_min, t_max) {
        lemma_misses_from_contains(s2, s1, ray, t_min, t_max);
    }
    assert forall|t: int| #[trigger]
        world_best_t_s(s1, ray, t_min, t_max, t) implies world_best_t_s(
        s2,
        ray,
        t_min,
        t_max,
        t,
    ) by {
        lemma_best_from_contains(s1, s2, ray, t_min, t_max, t);
    }
    assert forall|t: int|
        world_best_t_s(s2, ray, t_min, t_max, t) implies #[trigger] world_best_t_s(
        s1,
        ray,
        t_min,
        t_max,
        t,
    ) by {
        lemma_best_from_contains(s2, s1, ray, t_min, t_max, t);
    }
}

/// Misses transfer to any sequence holding at least the same objects.
proof fn lemma_misses_from_contains(
    s1: Seq<Sphere>,
    s2: Seq<Sphere>,
    ray: Ray,
    t_min: int,
    t_max: int,
)
    requires
        forall|x: Sphere| s2.contains(x) ==> s1.contains(x),
        world_misses_s(s1, ray, t_min, t_max),
    ensures
        world_misses_s(s2, ray, t_min, t_max),
{
    assert forall|i: int|
        0 <= i < s2.len() implies (#[trigger] sphere_hit_t_s(s2[i], ray, t_min, t_max))
        is None by {
        let x = s2[i];
        assert(s2.contains(x));
        let j = choose|j: int| 0 <= j < s1.len() && s1[j] == x;
        assert(sphere_hit_t_s(s1[j], ray, t_min, t_max) is None);
    }
}

/// A best hit parameter transfers between sequences holding the same
/// objects.
proof fn lemma_best_from_contains(
    s1: Seq<Sphere>,
    s2: Seq<Sphere>,
    ray: Ray,
    t_min: int,
    t_max: int,
    t: int,
)
    requires
        forall|x: Sphere| s1.contains(x) <==> s2.contains(x),
        world_best_t_s(s1, ray, t_min, t_max, t),
    ensures
        world_best_t_s(s2, ray, t_min, t_max, t),
{
    let i = choose|i: int|
        0 <= i < s1.len() && sphere_hit_t_s(s1[i], ray, t_min, t_max) == Some(t);
    assert(s1.contains(s1[i]));
    let wi = choose|wi: int| 0 <= wi < s2.len() && s2[wi] == s1[i];
    assert(sphere_hit_t_s(s2[wi], ray, t_min, t_max) == Some(t));
    assert forall|k: int|
        0 <= k < s2.len() && (#[trigger] sphere_hit_t_s(s2[k], ray, t_min, t_max))
        is Some implies t <= sphere_hit_t_s(s2[k], ray, t_min, t_max)->0 by {
        let x = s2[k];
        assert(s2.contains(x));
        let j = choose|j: int| 0 <= j < s1.len() && s1[j] == x;
        assert(sphere_hit_t_s(s1[j], ray, t_min, t_max) is Some ==> t <= sphere_hit_t_s(
            s1[j],
            ray,
            t_min,
            t_max,
        )->0);
    }
}

} // verus!
