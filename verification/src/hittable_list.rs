//! Scene aggregation: a list of spheres scanned linearly, narrowing the
//! search range to the closest hit found so far.
use vstd::prelude::*;

verus! {

use crate::fixed::Fx;
use crate::hittable::{HitRecord, HitV, Hittable, miss_v};
use crate::ray::Ray;
use crate::sphere::{Sphere, lemma_sphere_hit_narrow, sphere_hit_v};

pub struct HittableList {
    pub objects: Vec<Sphere>,
}

/// The fold the linear scan computes: objects in order, each tested on
/// `[t_min, closest]`, where `closest` narrows to each accepted hit.
pub open spec fn list_hit_from(
    objs: Seq<Sphere>,
    ray: Ray,
    t_min: int,
    closest: int,
    acc: HitV,
) -> HitV
    decreases objs.len(),
{
    if objs.len() == 0 {
        acc
    } else {
        let r0 = sphere_hit_v(objs[0], ray, t_min, closest);
        if r0.is_hit {
            list_hit_from(objs.drop_first(), ray, t_min, r0.t, r0)
        } else {
            list_hit_from(objs.drop_first(), ray, t_min, closest, acc)
        }
    }
}

/// The scene's intersection result.
pub open spec fn list_hit_v(objs: Seq<Sphere>, ray: Ray, t_min: int, t_max: int) -> HitV {
    list_hit_from(objs, ray, t_min, t_max, miss_v())
}

impl HittableList {
    /// Every material in the scene carries meaningful data.
    pub open spec fn wf(&self) -> bool {
        forall|i: int|
            0 <= i < self.objects@.len() ==> (#[trigger] self.objects@[i]).material.wf()
    }

    /// No material in the scene amplifies energy.
    pub open spec fn energy_bounded(&self) -> bool {
        forall|i: int|
            0 <= i < self.objects@.len() ==> (#[trigger] self.objects@[i]).material.energy_bounded()
    }

    pub fn new() -> (r: HittableList)
        ensures
            r.objects@ =~= Seq::<Sphere>::empty(),
    {
        HittableList { objects: Vec::new() }
    }

    /// Appends a primitive, builder style.
    pub fn add(self, hittable: Sphere) -> (r: HittableList)
        ensures
            r.objects@ =~= self.objects@.push(hittable),
    {
        let mut objects = self.objects;
        objects.push(hittable);
        HittableList { objects }
    }
}

impl Hittable for HittableList {
    open spec fn hit_spec(&self, ray: Ray, t_min: int, t_max: int) -> HitV {
        list_hit_v(self.objects@, ray, t_min, t_max)
    }

    fn hit(&self, ray: &Ray, t_min: Fx, t_max: Fx) -> (rec: HitRecord) {
        let mut closest_so_far = t_max;
        let mut tmp_rec = HitRecord::miss();
        let ghost objs = self.objects@;

        proof {
            assert(objs.skip(0) =~= objs);
        }
        let n = self.objects.len();
        let mut i: usize = 0;
        while i < n
            invariant
                i <= n,
                n == objs.len(),
                objs == self.objects@,
                list_hit_from(objs.skip(i as int), *ray, t_min@, closest_so_far@, tmp_rec@)
                    == list_hit_v(objs, *ray, t_min@, t_max@),
            decreases n - i,
        {
            let rec = self.objects[i].hit(ray, t_min, closest_so_far);
            proof {
                assert(objs.skip(i as int)[0] == objs[i as int]);
                assert(objs.skip(i as int).drop_first() =~= objs.skip(i as int + 1));
            }
            if rec.is_hit {
                closest_so_far = rec.t;
                tmp_rec = rec;
            }
            i = i + 1;
        }
        proof {
            assert(objs.skip(n as int).len() == 0);
        }
        tmp_rec
    }
}

/// Any accepted hit lies inside the range it was searched in.
pub proof fn lemma_sphere_hit_in_range(s: Sphere, ray: Ray, t_min: int, t_max: int)
    ensures
        sphere_hit_v(s, ray, t_min, t_max).is_hit ==> t_min <= sphere_hit_v(
            s,
            ray,
            t_min,
            t_max,
        ).t <= t_max,
{
}

/// Basic shape of the fold: the result never lies beyond the narrowed
/// range, an accepted accumulator is never dropped, and a missing result
/// is exactly the accumulator that went in.
proof fn lemma_fold_basic(objs: Seq<Sphere>, ray: Ray, t_min: int, closest: int, acc: HitV)
    requires
        acc.is_hit ==> acc.t == closest,
    ensures
        ({
            let res = list_hit_from(objs, ray, t_min, closest, acc);
            &&& (res.is_hit ==> res.t <= closest)
            &&& (acc.is_hit ==> res.is_hit)
            &&& (!res.is_hit ==> res == acc)
        }),
    decreases objs.len(),
{
    if objs.len() > 0 {
        let r0 = sphere_hit_v(objs[0], ray, t_min, closest);
        lemma_sphere_hit_in_range(objs[0], ray, t_min, closest);
        if r0.is_hit {
            lemma_fold_basic(objs.drop_first(), ray, t_min, r0.t, r0);
        } else {
            lemma_fold_basic(objs.drop_first(), ray, t_min, closest, acc);
        }
    }
}

/// The fold's result is at least as near as any object's own hit on the
/// range the fold reached that object with.
proof fn lemma_fold_nearest(
    objs: Seq<Sphere>,
    ray: Ray,
    t_min: int,
    closest: int,
    acc: HitV,
    i: int,
)
    requires
        0 <= i < objs.len(),
        sphere_hit_v(objs[i], ray, t_min, closest).is_hit,
        acc.is_hit ==> acc.t == closest,
    ensures
        ({
            let res = list_hit_from(objs, ray, t_min, closest, acc);
            res.is_hit && res.t <= sphere_hit_v(objs[i], ray, t_min, closest).t
        }),
    decreases objs.len(),
{
    let r0 = sphere_hit_v(objs[0], ray, t_min, closest);
    lemma_sphere_hit_in_range(objs[0], ray, t_min, closest);
    if i == 0 {
        lemma_fold_basic(objs.drop_first(), ray, t_min, r0.t, r0);
    } else {
        assert(objs.drop_first()[i - 1] == objs[i]);
        if r0.is_hit {
            lemma_sphere_hit_narrow(objs[i], ray, t_min, r0.t, closest);
            let narrowed = sphere_hit_v(objs[i], ray, t_min, r0.t);
            if narrowed.is_hit {
                lemma_fold_nearest(objs.drop_first(), ray, t_min, r0.t, r0, i - 1);
            } else {
                lemma_fold_basic(objs.drop_first(), ray, t_min, r0.t, r0);
            }
        } else {
            lemma_fold_nearest(objs.drop_first(), ray, t_min, closest, acc, i - 1);
        }
    }
}

/// Nearest-hit invariant: whatever single object a ray hits inside the
/// search range, the scene's answer is a hit at most that far away.
pub proof fn lemma_scene_nearest(objs: Seq<Sphere>, ray: Ray, t_min: int, t_max: int, i: int)
    requires
        0 <= i < objs.len(),
        sphere_hit_v(objs[i], ray, t_min, t_max).is_hit,
    ensures
        list_hit_v(objs, ray, t_min, t_max).is_hit,
        list_hit_v(objs, ray, t_min, t_max).t <= sphere_hit_v(objs[i], ray, t_min, t_max).t,
{
    lemma_fold_nearest(objs, ray, t_min, t_max, miss_v(), i);
}

/// Appending one object tests it on the range the fold ends with.
#[verifier::spinoff_prover]
#[verifier::rlimit(100)]
proof fn lemma_fold_push(
    objs: Seq<Sphere>,
    ray: Ray,
    t_min: int,
    closest: int,
    acc: HitV,
    s: Sphere,
)
    requires
        acc.is_hit ==> acc.t == closest,
    ensures
        ({
            let res = list_hit_from(objs, ray, t_min, closest, acc);
            let cl = if res.is_hit {
                res.t
            } else {
                closest
            };
            let rs = sphere_hit_v(s, ray, t_min, cl);
            list_hit_from(objs.push(s), ray, t_min, closest, acc) == (if rs.is_hit {
                rs
            } else {
                res
            })
        }),
    decreases objs.len(),
{
    if objs.len() == 0 {
        reveal_with_fuel(list_hit_from, 2);
        assert(objs.push(s)[0] == s);
        assert(objs.push(s).drop_first() =~= Seq::<Sphere>::empty());
        lemma_sphere_hit_in_range(s, ray, t_min, closest);
        let res = list_hit_from(objs, ray, t_min, closest, acc);
        assert(res == acc);
        assert((if res.is_hit {
            res.t
        } else {
            closest
        }) == closest);
    } else {
        assert(objs.push(s)[0] == objs[0]);
        assert(objs.push(s).drop_first() =~= objs.drop_first().push(s));
        let r0 = sphere_hit_v(objs[0], ray, t_min, closest);
        lemma_sphere_hit_in_range(objs[0], ray, t_min, closest);
        if r0.is_hit {
            lemma_fold_basic(objs.drop_first(), ray, t_min, r0.t, r0);
            lemma_fold_push(objs.drop_first(), ray, t_min, r0.t, r0, s);
        } else {
            lemma_fold_push(objs.drop_first(), ray, t_min, closest, acc, s);
        }
    }
}

/// Appending an object that does not hit inside the narrowed range
/// ending at the scene's current answer changes nothing.
pub proof fn lemma_occluded_append(objs: Seq<Sphere>, ray: Ray, t_min: int, t_max: int, s: Sphere)
    requires
        ({
            let res = list_hit_v(objs, ray, t_min, t_max);
            !sphere_hit_v(s, ray, t_min, if res.is_hit {
                res.t
            } else {
                t_max
            }).is_hit
        }),
    ensures
        list_hit_v(objs.push(s), ray, t_min, t_max) == list_hit_v(objs, ray, t_min, t_max),
{
    lemma_fold_push(objs, ray, t_min, t_max, miss_v(), s);
}

/// A farther, occluded primitive cannot change the scene's answer: if
/// the appended object misses outright, or hits only strictly beyond
/// the scene's hit, the result is untouched.
pub proof fn lemma_farther_append(objs: Seq<Sphere>, ray: Ray, t_min: int, t_max: int, s: Sphere)
    requires
        list_hit_v(objs, ray, t_min, t_max).is_hit,
        sphere_hit_v(s, ray, t_min, t_max).is_hit ==> sphere_hit_v(s, ray, t_min, t_max).t
            > list_hit_v(objs, ray, t_min, t_max).t,
    ensures
        list_hit_v(objs.push(s), ray, t_min, t_max) == list_hit_v(objs, ray, t_min, t_max),
{
    let res = list_hit_v(objs, ray, t_min, t_max);
    lemma_fold_basic(objs, ray, t_min, t_max, miss_v());
    lemma_sphere_hit_narrow(s, ray, t_min, res.t, t_max);
    lemma_occluded_append(objs, ray, t_min, t_max, s);
}

/// A fold that reports a hit took its record from some object, tested
/// on a range no wider than the fold's own.
proof fn lemma_fold_achieved(objs: Seq<Sphere>, ray: Ray, t_min: int, closest: int, acc: HitV)
    requires
        acc.is_hit ==> acc.t == closest,
    ensures
        ({
            let res = list_hit_from(objs, ray, t_min, closest, acc);
            res.is_hit && res != acc ==> exists|i: int|
                0 <= i < objs.len() && #[trigger] sphere_hit_v(objs[i], ray, t_min, closest)
                    == res
        }),
    decreases objs.len(),
{
    if objs.len() > 0 {
        let res = list_hit_from(objs, ray, t_min, closest, acc);
        let r0 = sphere_hit_v(objs[0], ray, t_min, closest);
        lemma_sphere_hit_in_range(objs[0], ray, t_min, closest);
        if r0.is_hit {
            lemma_fold_achieved(objs.drop_first(), ray, t_min, r0.t, r0);
            if res.is_hit && res != acc {
                if res == r0 {
                    assert(sphere_hit_v(objs[0], ray, t_min, closest) == res);
                } else {
                    let j = choose|j: int|
                        0 <= j < objs.drop_first().len() && #[trigger] sphere_hit_v(
                            objs.drop_first()[j],
                            ray,
                            t_min,
                            r0.t,
                        ) == res;
                    assert(objs.drop_first()[j] == objs[j + 1]);
                    lemma_sphere_hit_narrow(objs[j + 1], ray, t_min, r0.t, closest);
                    assert(sphere_hit_v(objs[j + 1], ray, t_min, closest) == res);
                }
            }
        } else {
            lemma_fold_achieved(objs.drop_first(), ray, t_min, closest, acc);
            if res.is_hit && res != acc {
                let j = choose|j: int|
                    0 <= j < objs.drop_first().len() && #[trigger] sphere_hit_v(
                        objs.drop_first()[j],
                        ray,
                        t_min,
                        closest,
                    ) == res;
                assert(objs.drop_first()[j] == objs[j + 1]);
                assert(sphere_hit_v(objs[j + 1], ray, t_min, closest) == res);
            }
        }
    }
}

/// The scene's answer, characterized: it reports a hit exactly when
/// some object hits inside the range; the record it reports is some
/// object's own full-range record; and no object's hit is nearer.
pub proof fn lemma_scene_hit_characterization(objs: Seq<Sphere>, ray: Ray, t_min: int, t_max: int)
    ensures
        list_hit_v(objs, ray, t_min, t_max).is_hit <==> exists|i: int|
            0 <= i < objs.len() && (#[trigger] sphere_hit_v(objs[i], ray, t_min, t_max)).is_hit,
        list_hit_v(objs, ray, t_min, t_max).is_hit ==> exists|i: int|
            0 <= i < objs.len() && #[trigger] sphere_hit_v(objs[i], ray, t_min, t_max)
                == list_hit_v(objs, ray, t_min, t_max),
        forall|i: int|
            0 <= i < objs.len() && (#[trigger] sphere_hit_v(objs[i], ray, t_min, t_max)).is_hit
                ==> list_hit_v(objs, ray, t_min, t_max).t <= sphere_hit_v(
                objs[i],
                ray,
                t_min,
                t_max,
            ).t,
{
    let res = list_hit_v(objs, ray, t_min, t_max);
    if res.is_hit {
        lemma_fold_achieved(objs, ray, t_min, t_max, miss_v());
        assert(res != miss_v());
        let i = choose|i: int|
            0 <= i < objs.len() && #[trigger] sphere_hit_v(objs[i], ray, t_min, t_max) == res;
        assert((sphere_hit_v(objs[i], ray, t_min, t_max)).is_hit);
    }
    assert forall|i: int|
        0 <= i < objs.len() && (#[trigger] sphere_hit_v(objs[i], ray, t_min, t_max)).is_hit
        implies res.is_hit && res.t <= sphere_hit_v(objs[i], ray, t_min, t_max).t by {
        lemma_scene_nearest(objs, ray, t_min, t_max, i);
    }
}

/// A hit reported by the scene carries the material of one of its objects.
pub proof fn lemma_list_hit_material(objs: Seq<Sphere>, ray: Ray, t_min: int, t_max: int)
    ensures
        list_hit_v(objs, ray, t_min, t_max).is_hit ==> exists|i: int|
            0 <= i < objs.len() && list_hit_v(objs, ray, t_min, t_max).material == objs[
                i
            ].material,
{
    lemma_fold_material(objs, ray, t_min, t_max, miss_v());
}

proof fn lemma_fold_material(objs: Seq<Sphere>, ray: Ray, t_min: int, closest: int, acc: HitV)
    ensures
        ({
            let res = list_hit_from(objs, ray, t_min, closest, acc);
            res.is_hit ==> res == acc || exists|i: int|
                0 <= i < objs.len() && res.material == objs[i].material
        }),
    decreases objs.len(),
{
    if objs.len() > 0 {
        let r0 = sphere_hit_v(objs[0], ray, t_min, closest);
        let res = list_hit_from(objs, ray, t_min, closest, acc);
        if r0.is_hit {
            lemma_fold_material(objs.drop_first(), ray, t_min, r0.t, r0);
            if res.is_hit {
                if res == r0 {
                    assert(res.material == objs[0].material);
                } else {
                    let j = choose|j: int|
                        0 <= j < objs.drop_first().len() && res.material == objs.drop_first()[
                            j
                        ].material;
                    assert(objs.drop_first()[j] == objs[j + 1]);
                    assert(res.material == objs[j + 1].material);
                }
            }
        } else {
            lemma_fold_material(objs.drop_first(), ray, t_min, closest, acc);
            if res.is_hit && res != acc {
                let j = choose|j: int|
                    0 <= j < objs.drop_first().len() && res.material == objs.drop_first()[
                        j
                    ].material;
                assert(objs.drop_first()[j] == objs[j + 1]);
                assert(res.material == objs[j + 1].material);
            }
        }
    }
}

} // verus!
