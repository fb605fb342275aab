//! The radiance estimator: follows one ray through the scene, bounce by
//! bounce, multiplying a running attenuation, until a miss, an
//! absorption or the depth limit ends the path.
use vstd::prelude::*;

verus! {

use crate::color::{Color, color_in_unit, lemma_cmul_unit, lemma_white_cmul};
use crate::fixed::{
    FX_HALF, FX_MAX, FX_SCALE, Fx, fx_add, fx_clamp, fx_mul, fx_sub, lemma_fx_mul_le,
    lemma_fx_mul_one,
};
use crate::hittable::Hittable;
use crate::hittable_list::{HittableList, lemma_list_hit_material, list_hit_v};
use crate::material::scatter_post;
use crate::ray::Ray;
use crate::rng::RandomSource;
use crate::utils::clamp;
use crate::vec3::{V3, Vec3, v3, v3_add, v3_lsq, v3_scale, v3_unit};

/// The near end of every intersection range, excluding self-intersection
/// at the origin point (shadow acne).
pub const T_EPS: i64 = 1_000;

/// The sky gradient a missed ray returns: white blended toward sky
/// blue by half the unit direction's height above the horizon.  The
/// blend parameter is clamped into `[0, 1]`, which real-valued
/// arithmetic guarantees but fixed-point normalization may miss by a
/// rounding step.
pub open spec fn background_v(unit_dir: V3) -> V3 {
    let t = fx_clamp(
        fx_mul(FX_HALF as int, fx_add(unit_dir.y, FX_SCALE as int)),
        0,
        FX_SCALE as int,
    );
    v3_add(
        v3_scale(v3(FX_SCALE as int, FX_SCALE as int, FX_SCALE as int), fx_sub(FX_SCALE as int, t)),
        v3_scale(v3(FX_HALF as int, 700_000, FX_SCALE as int), t),
    )
}

/// Evaluates the sky gradient for a unit direction.
pub fn background_color(unit_direction: &Vec3) -> (c: Color)
    ensures
        c@ == background_v(unit_direction@),
        color_in_unit(c@),
{
    let one = Fx::one();
    let half = Fx::new(FX_HALF);
    let t = clamp(half.mul(unit_direction.y().add(one)), Fx::zero(), one);
    let white = Color::new(one, one, one);
    let blue = Color::new(half, Fx::new(700_000), one);
    let c = white.scale(one.sub(t)).add(&blue.scale(t));
    proof {
        lemma_background_in_unit(unit_direction@);
    }
    c
}

/// The sky gradient stays within the unit color cube.
pub proof fn lemma_background_in_unit(u: V3)
    ensures
        color_in_unit(background_v(u)),
{
    let t = fx_clamp(
        fx_mul(FX_HALF as int, fx_add(u.y, FX_SCALE as int)),
        0,
        FX_SCALE as int,
    );
    let s = fx_sub(FX_SCALE as int, t);
    lemma_fx_mul_one(s);
    lemma_fx_mul_one(t);
    lemma_fx_mul_le(FX_HALF as int, t);
    lemma_fx_mul_le(700_000, t);
    lemma_fx_mul_le(FX_SCALE as int, t);
    lemma_fx_mul_le(FX_SCALE as int, s);
}

/// On the horizon the gradient is the exact even blend of white and
/// sky blue: `(0.75, 0.85, 1.0)`.
pub proof fn lemma_background_horizon(u: V3)
    requires
        u.y == 0,
    ensures
        background_v(u) == v3(750_000, 850_000, FX_SCALE as int),
{
    assert(500_000int * 1_000_000 == 500_000_000_000) by (nonlinear_arith);
    assert(1_000_000int * 500_000 == 500_000_000_000) by (nonlinear_arith);
    assert(500_000int * 500_000 == 250_000_000_000) by (nonlinear_arith);
    assert(700_000int * 500_000 == 350_000_000_000) by (nonlinear_arith);
    assert(fx_mul(FX_HALF as int, fx_add(0, FX_SCALE as int)) == 500_000);
    assert(fx_mul(FX_SCALE as int, 500_000) == 500_000);
    assert(fx_mul(FX_HALF as int, 500_000) == 250_000);
    assert(fx_mul(700_000, 500_000) == 350_000);
}

/// One path's radiance.  With the depth exhausted the path is black;
/// a missed first bounce returns the sky gradient exactly; and a scene
/// that only ever attenuates (all albedos within the unit cube) can
/// never return a channel beyond the unit interval.
pub fn ray_color(ray: &Ray, world: &HittableList, depth: u32, rng: &mut RandomSource) -> (c:
    Color)
    requires
        world.wf(),
    ensures
        depth == 0 ==> c@ == v3(0, 0, 0),
        (depth > 0 && v3_lsq(ray.dir@) > 0 && !list_hit_v(
            world.objects@,
            *ray,
            T_EPS as int,
            FX_MAX as int,
        ).is_hit) ==> c@ == background_v(v3_unit(ray.dir@)),
        world.energy_bounded() ==> color_in_unit(c@),
{
    let one = Fx::one();
    let mut attenuation = Color::new(one, one, one);
    let mut current: Ray = *ray;
    let mut remaining: u32 = depth;

    while remaining > 0
        invariant
            world.wf(),
            remaining <= depth,
            remaining == depth ==> current == *ray && attenuation@ == v3(
                FX_SCALE as int,
                FX_SCALE as int,
                FX_SCALE as int,
            ),
            world.energy_bounded() ==> color_in_unit(attenuation@),
            remaining < depth ==> list_hit_v(
                world.objects@,
                *ray,
                T_EPS as int,
                FX_MAX as int,
            ).is_hit,
        decreases remaining,
    {
        let a = current.dir.length_squared();
        if a.raw() <= 0 {
            // A direction below the fixed-point resolution cannot be
            // normalized; the path ends as absorbed.
            return Color::origin();
        }
        let rec = world.hit(&current, Fx::new(T_EPS), Fx::new(FX_MAX));
        if !rec.is_hit {
            let unit_direction = current.dir.unit_vector();
            let bg = background_color(&unit_direction);
            let out = attenuation.mul(&bg);
            proof {
                if remaining == depth {
                    lemma_white_cmul(bg@);
                }
                if world.energy_bounded() {
                    lemma_cmul_unit(attenuation@, bg@);
                }
            }
            return out;
        }
        proof {
            lemma_list_hit_material(world.objects@, current, T_EPS as int, FX_MAX as int);
            let i = choose|i: int|
                0 <= i < world.objects@.len() && list_hit_v(
                    world.objects@,
                    current,
                    T_EPS as int,
                    FX_MAX as int,
                ).material == world.objects@[i].material;
            assert(rec.material == world.objects@[i].material);
            assert(world.objects@[i].material.wf());
            if world.energy_bounded() {
                assert(world.objects@[i].material.energy_bounded());
            }
        }
        let (scattered, atten, was_scattered) = rec.material.scatter(&current, &rec, rng);
        if !was_scattered {
            return Color::origin();
        }
        proof {
            if world.energy_bounded() {
                lemma_scatter_atten_unit(rec.material, current, rec, scattered, atten, was_scattered);
                lemma_cmul_unit(attenuation@, atten@);
            }
        }
        attenuation = attenuation.mul(&atten);
        current = scattered;
        remaining = remaining - 1;
    }
    Color::origin()
}

/// A scatter from an energy-bounded material attenuates within the
/// unit cube.
proof fn lemma_scatter_atten_unit(
    m: crate::material::Material,
    ray_in: Ray,
    rec: crate::hittable::HitRecord,
    scattered: Ray,
    atten: Color,
    valid: bool,
)
    requires
        m.energy_bounded(),
        scatter_post(m, ray_in, rec, scattered, atten, valid),
    ensures
        color_in_unit(atten@),
{
}

} // verus!
