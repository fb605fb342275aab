//! The scattering protocol: diffuse, specular and refractive materials.
//!
//! Randomness is threaded explicitly: the sample-consuming decision
//! functions are verified for every sample value, and the contracts of
//! the scatter functions quantify over the samples that were drawn.
use vstd::prelude::*;

verus! {

use crate::color::Color;
use crate::fixed::{
    Fx, FX_SCALE, fx_abs, fx_add, fx_div, fx_min, fx_mul, fx_sqrt, fx_sub, lemma_fx_div_nonneg,
};
use crate::hittable::HitRecord;
use crate::ray::Ray;
use crate::rng::RandomSource;
use crate::utils::random_float;
use crate::vec3::{
    V3, Vec3, v3, v3_add, v3_dot, v3_lsq, v3_near_zero, v3_neg, v3_reflect, v3_refract,
    v3_scale, v3_unit,
};

/// Ideal diffuse scattering with the given base color.
#[derive(Clone, Copy)]
pub struct Lambertian {
    pub albedo: Color,
}

/// Specular reflection with the given base color and roughness.
#[derive(Clone, Copy)]
pub struct Metal {
    pub albedo: Color,
    pub fuzz: Fx,
}

/// Refraction at the given index, with no color absorption.
#[derive(Clone, Copy)]
pub struct Dielectric {
    pub index_of_refraction: Fx,
}

/// The closed set of scattering behaviours.
#[derive(Clone, Copy)]
pub enum Material {
    Lambertian(Lambertian),
    Metal(Metal),
    Dielectric(Dielectric),
}

/// A diffuse direction: normal plus a unit offset, falling back to the
/// normal itself when the sum degenerates to (near) zero.
pub open spec fn lambertian_dir_v(normal: V3, offset: V3) -> V3 {
    let d = v3_add(normal, offset);
    if v3_near_zero(d) {
        normal
    } else {
        d
    }
}

/// `x` to the fifth power, as repeated fixed-point products.
pub open spec fn pow5_v(x: int) -> int {
    fx_mul(fx_mul(fx_mul(fx_mul(x, x), x), x), x)
}

/// Schlick's approximation of the Fresnel reflectance.
pub open spec fn reflectance_v(cosine: int, ridx: int) -> int {
    let r0_base = fx_div(fx_sub(FX_SCALE as int, ridx), fx_add(FX_SCALE as int, ridx));
    let r0 = fx_mul(r0_base, r0_base);
    fx_add(r0, fx_mul(fx_sub(FX_SCALE as int, r0), pow5_v(fx_sub(FX_SCALE as int, cosine))))
}

/// The refraction ratio a dielectric uses, picked by face orientation.
pub open spec fn dielectric_ratio_v(ior: int, front_face: bool) -> int {
    if front_face {
        fx_div(FX_SCALE as int, ior)
    } else {
        ior
    }
}

/// The direction a dielectric scatters into: reflection when refraction
/// is impossible (total internal reflection) or when the Fresnel
/// reflectance exceeds the drawn sample; refraction otherwise.
pub open spec fn dielectric_dir_v(uv: V3, n: V3, ratio: int, s: int) -> V3 {
    let cos_theta = fx_min(v3_dot(v3_neg(uv), n), FX_SCALE as int);
    let sin_sq = fx_sub(FX_SCALE as int, fx_mul(cos_theta, cos_theta));
    let sin_theta = fx_sqrt(if sin_sq < 0 {
        0
    } else {
        sin_sq
    });
    if fx_mul(ratio, sin_theta) > FX_SCALE as int || reflectance_v(cos_theta, ratio) > s {
        v3_reflect(uv, n)
    } else {
        v3_refract(uv, n, ratio)
    }
}

/// What every scatter result satisfies, by material kind.
pub open spec fn scatter_post(
    m: Material,
    ray_in: Ray,
    rec: HitRecord,
    scattered: Ray,
    attenuation: Color,
    valid: bool,
) -> bool {
    scattered.orig == rec.p && match m {
        Material::Lambertian(l) => attenuation == l.albedo && valid && (exists|p: V3|
            0 < #[trigger] v3_lsq(p) < FX_SCALE as int && scattered.dir@ == lambertian_dir_v(
                rec.normal@,
                v3_unit(p),
            )),
        Material::Metal(mt) => attenuation == mt.albedo && valid == (v3_dot(
            scattered.dir@,
            rec.normal@,
        ) > 0) && (exists|p: V3|
            0 < #[trigger] v3_lsq(p) < FX_SCALE as int && scattered.dir@ == v3_add(
                v3_reflect(v3_unit(ray_in.dir@), rec.normal@),
                v3_scale(p, mt.fuzz@),
            )) && (mt.fuzz@ == 0 ==> scattered.dir@ == v3_reflect(
            v3_unit(ray_in.dir@),
            rec.normal@,
        )),
        Material::Dielectric(d) => attenuation@ == v3(
            FX_SCALE as int,
            FX_SCALE as int,
            FX_SCALE as int,
        ) && valid && (exists|s: int|
            0 <= s < FX_SCALE as int && scattered.dir@ == #[trigger] dielectric_dir_v(
                v3_unit(ray_in.dir@),
                rec.normal@,
                dielectric_ratio_v(d.index_of_refraction@, rec.front_face),
                s,
            )),
    }
}

impl Material {
    /// A dielectric must carry a positive refraction index; the other
    /// materials are unconstrained.
    pub open spec fn wf(self) -> bool {
        match self {
            Material::Dielectric(d) => d.index_of_refraction@ > 0,
            _ => true,
        }
    }

    /// The material never amplifies energy: its attenuation channels
    /// stay within the unit interval.
    pub open spec fn energy_bounded(self) -> bool {
        match self {
            Material::Lambertian(l) => crate::color::color_in_unit(l.albedo@),
            Material::Metal(m) => crate::color::color_in_unit(m.albedo@),
            Material::Dielectric(_) => true,
        }
    }

    /// Scatters the incoming ray at the given hit.
    pub fn scatter(&self, ray_in: &Ray, rec: &HitRecord, rng: &mut RandomSource) -> (out: (
        Ray,
        Color,
        bool,
    ))
        requires
            v3_lsq(ray_in.dir@) > 0,
            self.wf(),
        ensures
            scatter_post(*self, *ray_in, *rec, out.0, out.1, out.2),
    {
        match self {
            Material::Lambertian(l) => l.scatter(ray_in, rec, rng),
            Material::Metal(m) => m.scatter(ray_in, rec, rng),
            Material::Dielectric(d) => d.scatter(ray_in, rec, rng),
        }
    }
}

impl Lambertian {
    pub fn new(color: Color) -> (r: Lambertian)
        ensures
            r.albedo == color,
    {
        Lambertian { albedo: color }
    }

    /// Diffuse scattering: always valid, attenuated by the albedo.
    pub fn scatter(&self, _ray_in: &Ray, rec: &HitRecord, rng: &mut RandomSource) -> (out: (
        Ray,
        Color,
        bool,
    ))
        ensures
            scatter_post(Material::Lambertian(*self), *_ray_in, *rec, out.0, out.1, out.2),
    {
        let scatter_direction = get_scatter_direction(rec, rng);
        (Ray::new(rec.p, scatter_direction), self.albedo, true)
    }
}

impl Metal {
    /// Roughness is capped at one, as fully diffuse fuzz.
    pub fn new(color: Color, f: Fx) -> (r: Metal)
        ensures
            r.albedo == color,
            r.fuzz@ == fx_min(f@, FX_SCALE as int),
    {
        let one = Fx::one();
        Metal { albedo: color, fuzz: if f.lt(one) {
            f
        } else {
            one
        } }
    }

    /// Specular scattering: reflect, perturb by `fuzz`, and absorb the
    /// ray when the perturbed direction no longer leaves the surface.
    /// With zero fuzz the scattered direction is exactly the mirror
    /// reflection of the unit incoming direction: no randomness enters.
    pub fn scatter(&self, ray_in: &Ray, rec: &HitRecord, rng: &mut RandomSource) -> (out: (
        Ray,
        Color,
        bool,
    ))
        requires
            v3_lsq(ray_in.dir@) > 0,
        ensures
            scatter_post(Material::Metal(*self), *ray_in, *rec, out.0, out.1, out.2),
    {
        let reflected = ray_in.dir.unit_vector().reflect(&rec.normal);
        let p = Vec3::random_in_unit_sphere(rng);
        let scattered = Ray::new(rec.p, reflected.add(&p.scale(self.fuzz)));
        let is_scattered = Fx::zero().lt(scattered.dir.dot(&rec.normal));
        proof {
            assert(0 < v3_lsq(p@) < FX_SCALE as int && scattered.dir@ == v3_add(
                v3_reflect(v3_unit(ray_in.dir@), rec.normal@),
                v3_scale(p@, self.fuzz@),
            ));
            if self.fuzz@ == 0 {
                lemma_scale_zero(p@);
                lemma_add_zero(reflected@);
            }
        }
        (scattered, self.albedo, is_scattered)
    }
}

impl Dielectric {
    /// Rejects a nonpositive refraction index as invalid material data.
    pub fn new(index_of_refraction: Fx) -> (r: Result<Dielectric, crate::BuildError>)
        ensures
            index_of_refraction@ > 0 <==> r is Ok,
            r is Ok ==> r->Ok_0.index_of_refraction == index_of_refraction,
            r is Err ==> r->Err_0 == crate::BuildError::InvalidMaterial,
    {
        if Fx::zero().lt(index_of_refraction) {
            Ok(Dielectric { index_of_refraction })
        } else {
            Err(crate::BuildError::InvalidMaterial)
        }
    }

    /// Refractive scattering: never absorbs and never attenuates color.
    pub fn scatter(&self, ray_in: &Ray, rec: &HitRecord, rng: &mut RandomSource) -> (out: (
        Ray,
        Color,
        bool,
    ))
        requires
            v3_lsq(ray_in.dir@) > 0,
            self.index_of_refraction@ > 0,
        ensures
            scatter_post(Material::Dielectric(*self), *ray_in, *rec, out.0, out.1, out.2),
    {
        let attenuation = Color::new(Fx::one(), Fx::one(), Fx::one());
        let refraction_ratio = if rec.front_face {
            proof {
                use_type_invariant(self.index_of_refraction);
                lemma_fx_div_nonneg(FX_SCALE as int, self.index_of_refraction@);
            }
            Fx::one().div(self.index_of_refraction)
        } else {
            self.index_of_refraction
        };
        let unit_direction = ray_in.dir.unit_vector();
        let sample = random_float(rng);
        let direction = get_direction(&unit_direction, &rec.normal, refraction_ratio, sample);
        let scattered = Ray::new(rec.p, direction);
        proof {
            assert(exists|s: int|
                0 <= s < FX_SCALE as int && scattered.dir@ == #[trigger] dielectric_dir_v(
                    v3_unit(ray_in.dir@),
                    rec.normal@,
                    dielectric_ratio_v(self.index_of_refraction@, rec.front_face),
                    s,
                )) by {
                assert(0 <= sample@ < FX_SCALE as int && scattered.dir@ == dielectric_dir_v(
                    v3_unit(ray_in.dir@),
                    rec.normal@,
                    dielectric_ratio_v(self.index_of_refraction@, rec.front_face),
                    sample@,
                ));
            }
            let m = Material::Dielectric(*self);
            assert(dielectric_ratio_v(m->Dielectric_0.index_of_refraction@, rec.front_face)
                == dielectric_ratio_v(self.index_of_refraction@, rec.front_face));
        }
        (scattered, attenuation, true)
    }
}

/// The deterministic dielectric decision, for a drawn sample.
pub fn get_direction(unit_direction: &Vec3, normal: &Vec3, refraction_ratio: Fx, sample: Fx) -> (r:
    Vec3)
    requires
        refraction_ratio@ >= 0,
    ensures
        r@ == dielectric_dir_v(unit_direction@, normal@, refraction_ratio@, sample@),
{
    let one = Fx::one();
    let cos_theta = unit_direction.neg().dot(normal).min(one);
    let sin_theta = one.sub(cos_theta.mul(cos_theta)).max(Fx::zero()).sqrt();

    let cannot_refract = one.lt(refraction_ratio.mul(sin_theta));
    if cannot_refract || sample.lt(reflectance(cos_theta, refraction_ratio)) {
        unit_direction.reflect(normal)
    } else {
        unit_direction.refract(normal, refraction_ratio)
    }
}

/// Schlick's reflectance approximation.
fn reflectance(cosine: Fx, refraction_index: Fx) -> (r: Fx)
    requires
        refraction_index@ >= 0,
    ensures
        r@ == reflectance_v(cosine@, refraction_index@),
{
    let one = Fx::one();
    let r0_base = one.sub(refraction_index).div(one.add(refraction_index));
    let r0 = r0_base.mul(r0_base);
    let x = one.sub(cosine);
    let x5 = x.mul(x).mul(x).mul(x).mul(x);
    r0.add(one.sub(r0).mul(x5))
}

/// Draws the diffuse direction for a hit.
fn get_scatter_direction(rec: &HitRecord, rng: &mut RandomSource) -> (d: Vec3)
    ensures
        exists|p: V3|
            0 < #[trigger] v3_lsq(p) < FX_SCALE as int && d@ == lambertian_dir_v(
                rec.normal@,
                v3_unit(p),
            ),
{
    let offset = Vec3::random_unit_vector(rng);
    let scatter_direction = rec.normal.add(&offset);
    let d = if scatter_direction.near_zero() {
        rec.normal
    } else {
        scatter_direction
    };
    proof {
        let p = choose|p: V3| 0 < v3_lsq(p) < FX_SCALE as int && offset@ == #[trigger] v3_unit(p);
        assert(0 < v3_lsq(p) < FX_SCALE as int && d@ == lambertian_dir_v(rec.normal@, v3_unit(p)));
    }
    d
}

/// Normal-incidence identity: with a refraction ratio of exactly one
/// and the ray exactly opposite an exactly-unit normal, a dielectric
/// passes the direction through unbent, whatever sample is drawn.
pub proof fn lemma_dielectric_normal_incidence(n: V3, s: int)
    requires
        v3_lsq(n) == FX_SCALE as int,
        s >= 0,
        crate::fixed::fx_abs(n.x) <= crate::fixed::FX_MAX as int,
        crate::fixed::fx_abs(n.y) <= crate::fixed::FX_MAX as int,
        crate::fixed::fx_abs(n.z) <= crate::fixed::FX_MAX as int,
    ensures
        dielectric_dir_v(v3_neg(n), n, FX_SCALE as int, s) == v3_neg(n),
{
    let uv = v3_neg(n);
    let fs = FX_SCALE as int;
    assert(v3_neg(uv) == n);
    let cos_theta = fx_min(v3_dot(v3_neg(uv), n), fs);
    assert(cos_theta == fs);
    assert(1_000_000int * 1_000_000 == 1_000_000_000_000) by (nonlinear_arith);
    assert(fx_mul(fs, fs) == fs);
    // sin_theta is the root of an exactly vanishing square.
    crate::fixed::lemma_sqrt_floor_unique(0, 0);
    assert(fx_sqrt(0) == 0) by {
        assert(0 * fs == 0) by (nonlinear_arith);
    }
    assert(fx_mul(fs, 0) == 0) by {
        assert(fs * 0 == 0) by (nonlinear_arith);
    }
    // The Fresnel reflectance vanishes at a unit ratio.
    assert(fx_sub(fs, fs) == 0);
    assert(fx_div(0, fx_add(fs, fs)) == 0) by {
        assert(0 * fs == 0) by (nonlinear_arith);
    }
    assert(fx_mul(0, 0) == 0) by {
        assert(0int * 0 == 0) by (nonlinear_arith);
    }
    assert(pow5_v(0) == 0);
    assert(reflectance_v(fs, fs) == 0);
    // So the direction refracts; the perpendicular part vanishes and the
    // parallel part is the negated normal.
    crate::fixed::lemma_fx_mul_one(n.x);
    crate::fixed::lemma_fx_mul_one(n.y);
    crate::fixed::lemma_fx_mul_one(n.z);
    let summed = v3_add(uv, v3_scale(n, cos_theta));
    assert(summed == v3(0, 0, 0));
    let out_perp = v3_scale(summed, fs);
    assert(fx_mul(0, fs) == 0) by {
        assert(0 * fs == 0) by (nonlinear_arith);
    }
    assert(out_perp == v3(0, 0, 0));
    assert(v3_lsq(out_perp) == 0);
    assert(fx_sqrt(fx_abs(fx_sub(fs, 0))) == fs) by {
        crate::fixed::lemma_sqrt_floor_unique(1_000_000_000_000, 1_000_000);
        assert((1_000_000int + 1) * (1_000_000int + 1) > 1_000_000_000_000) by (nonlinear_arith);
    }
    crate::fixed::lemma_fx_mul_neg_one(n.x);
    crate::fixed::lemma_fx_mul_neg_one(n.y);
    crate::fixed::lemma_fx_mul_neg_one(n.z);
    let out_parallel = v3_scale(n, crate::fixed::fx_neg(fx_sqrt(fx_abs(fx_sub(fs, v3_lsq(out_perp))))));
    assert(out_parallel == uv);
    assert(v3_add(out_perp, out_parallel) == uv);
}

/// Scaling by zero yields the zero vector.
proof fn lemma_scale_zero(p: V3)
    ensures
        v3_scale(p, 0) == v3(0, 0, 0),
{
    assert(p.x * 0 == 0) by (nonlinear_arith);
    assert(p.y * 0 == 0) by (nonlinear_arith);
    assert(p.z * 0 == 0) by (nonlinear_arith);
}

/// Adding the zero vector to an in-range vector changes nothing.
proof fn lemma_add_zero(u: V3)
    requires
        crate::fixed::fx_abs(u.x) <= crate::fixed::FX_MAX as int,
        crate::fixed::fx_abs(u.y) <= crate::fixed::FX_MAX as int,
        crate::fixed::fx_abs(u.z) <= crate::fixed::FX_MAX as int,
    ensures
        v3_add(u, v3(0, 0, 0)) == u,
{
}

} // verus!
