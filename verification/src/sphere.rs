//! Spheres and their quadratic intersection test.
//!
//! A negative radius is deliberate geometry: it flips the outward normal,
//! which models a hollow refractive shell.  Only a zero radius is
//! rejected at construction.
use vstd::prelude::*;

verus! {

use crate::BuildError;
use crate::fixed::{
    Fx, fx_add, fx_div, fx_mul, fx_neg, fx_sqrt, fx_sub, lemma_fx_div_monotone,
    lemma_fx_sqrt_nonneg,
};
use crate::hittable::{HitRecord, HitV, Hittable, face_normal_v, miss_v};
use crate::material::Material;
use crate::ray::{Ray, ray_at_v};
use crate::vec3::{Vec3, v3_div, v3_dot, v3_lsq, v3_sub};

#[derive(Clone, Copy)]
pub struct Sphere {
    pub center: Vec3,
    pub radius: Fx,
    pub material: Material,
}

/// The discriminant of the intersection quadratic
/// `a t^2 + 2 half_b t + c = 0`, in fixed-point arithmetic.
pub open spec fn sphere_disc_v(s: Sphere, ray: Ray) -> int {
    let oc = v3_sub(ray.orig@, s.center@);
    let a = v3_lsq(ray.dir@);
    let half_b = v3_dot(oc, ray.dir@);
    let c = fx_sub(v3_lsq(oc), fx_mul(s.radius@, s.radius@));
    fx_sub(fx_mul(half_b, half_b), fx_mul(a, c))
}

/// The smaller root candidate of the intersection quadratic.
pub open spec fn sphere_root1_v(s: Sphere, ray: Ray) -> int {
    let oc = v3_sub(ray.orig@, s.center@);
    let a = v3_lsq(ray.dir@);
    let half_b = v3_dot(oc, ray.dir@);
    fx_div(fx_sub(fx_neg(half_b), fx_sqrt(sphere_disc_v(s, ray))), a)
}

/// The larger root candidate of the intersection quadratic.
pub open spec fn sphere_root2_v(s: Sphere, ray: Ray) -> int {
    let oc = v3_sub(ray.orig@, s.center@);
    let a = v3_lsq(ray.dir@);
    let half_b = v3_dot(oc, ray.dir@);
    fx_div(fx_add(fx_neg(half_b), fx_sqrt(sphere_disc_v(s, ray))), a)
}

/// The record a successful test at parameter `t` produces.
pub open spec fn sphere_record_v(s: Sphere, ray: Ray, t: int) -> HitV {
    let p = ray_at_v(ray.orig@, ray.dir@, t);
    let outward = v3_div(v3_sub(p, s.center@), s.radius@);
    let oriented = face_normal_v(ray.dir@, outward);
    HitV {
        p,
        normal: oriented.1,
        material: s.material,
        t,
        front_face: oriented.0,
        is_hit: true,
    }
}

/// The whole intersection test: a miss when the geometry is degenerate,
/// the direction vanishes at the fixed-point resolution, or the
/// discriminant is negative; otherwise the nearest root in range wins,
/// trying the smaller root first.
pub open spec fn sphere_hit_v(s: Sphere, ray: Ray, t_min: int, t_max: int) -> HitV {
    let a = v3_lsq(ray.dir@);
    if s.radius@ == 0 || a <= 0 || sphere_disc_v(s, ray) < 0 {
        miss_v()
    } else {
        let root1 = sphere_root1_v(s, ray);
        let root2 = sphere_root2_v(s, ray);
        if t_min <= root1 <= t_max {
            sphere_record_v(s, ray, root1)
        } else if t_min <= root2 <= t_max {
            sphere_record_v(s, ray, root2)
        } else {
            miss_v()
        }
    }
}

impl Sphere {
    /// Rejects a zero radius: it would degenerate the outward normal.
    pub fn new(center: Vec3, radius: Fx, material: Material) -> (r: Result<Sphere, BuildError>)
        ensures
            radius@ != 0 <==> r is Ok,
            r is Ok ==> r->Ok_0 == (Sphere { center, radius, material }),
            r is Err ==> r->Err_0 == BuildError::InvalidGeometry,
    {
        if radius.raw() == 0 {
            Err(BuildError::InvalidGeometry)
        } else {
            Ok(Sphere { center, radius, material })
        }
    }
}

impl Hittable for Sphere {
    open spec fn hit_spec(&self, ray: Ray, t_min: int, t_max: int) -> HitV {
        sphere_hit_v(*self, ray, t_min, t_max)
    }

    fn hit(&self, ray: &Ray, t_min: Fx, t_max: Fx) -> (rec: HitRecord) {
        let oc = ray.orig.sub(&self.center);
        let a = ray.dir.length_squared();
        let half_b = oc.dot(&ray.dir);
        let c = oc.length_squared().sub(self.radius.mul(self.radius));

        let discriminant = half_b.mul(half_b).sub(a.mul(c));
        if self.radius.raw() == 0 || a.raw() <= 0 || discriminant.raw() < 0 {
            return HitRecord::miss();
        }

        let sqrtd = discriminant.sqrt();

        // Find the nearest root that lies in the acceptable range.
        let mut root = half_b.neg().sub(sqrtd).div(a);
        if root.lt(t_min) || t_max.lt(root) {
            root = half_b.neg().add(sqrtd).div(a);
            if root.lt(t_min) || t_max.lt(root) {
                return HitRecord::miss();
            }
        }

        let t = root;
        let p = ray.at(t);
        let outward_normal = p.sub(&self.center).div(self.radius);

        let (front_face, normal) = HitRecord::get_face_normal(ray, outward_normal);

        HitRecord { t, p, material: self.material, front_face, normal, is_hit: true }
    }
}

/// A ray whose discriminant is negative misses the sphere on every range.
pub proof fn lemma_negative_disc_misses(s: Sphere, ray: Ray, t_min: int, t_max: int)
    requires
        sphere_disc_v(s, ray) < 0,
    ensures
        !sphere_hit_v(s, ray, t_min, t_max).is_hit,
{
}

/// A ray running parallel past the sphere misses it on every range:
/// from the origin along +y, the half-unit sphere a unit away along -z
/// has a negative discriminant, so no `[t_min, t_max]` can catch it.
pub proof fn lemma_parallel_ray_misses(s: Sphere, ray: Ray, t_min: int, t_max: int)
    requires
        s.center@ == crate::vec3::v3(0, 0, -1_000_000),
        s.radius@ == 500_000,
        ray.orig@ == crate::vec3::v3(0, 0, 0),
        ray.dir@ == crate::vec3::v3(0, 1_000_000, 0),
    ensures
        !sphere_hit_v(s, ray, t_min, t_max).is_hit,
{
    assert(1_000_000int * 1_000_000 == 1_000_000_000_000) by (nonlinear_arith);
    assert(500_000int * 500_000 == 250_000_000_000) by (nonlinear_arith);
    assert(1_000_000int * 750_000 == 750_000_000_000) by (nonlinear_arith);
    assert(0int * 1_000_000 == 0) by (nonlinear_arith);
    assert(0int * 0 == 0) by (nonlinear_arith);
    assert(sphere_disc_v(s, ray) == -750_000);
    lemma_negative_disc_misses(s, ray, t_min, t_max);
}

/// The smaller root candidate never exceeds the larger one.
pub proof fn lemma_roots_ordered(s: Sphere, ray: Ray)
    requires
        sphere_disc_v(s, ray) >= 0,
        v3_lsq(ray.dir@) > 0,
    ensures
        sphere_root1_v(s, ray) <= sphere_root2_v(s, ray),
{
    let oc = v3_sub(ray.orig@, s.center@);
    let a = v3_lsq(ray.dir@);
    let half_b = v3_dot(oc, ray.dir@);
    let sq = fx_sqrt(sphere_disc_v(s, ray));
    lemma_fx_sqrt_nonneg(sphere_disc_v(s, ray));
    assert(fx_sub(fx_neg(half_b), sq) <= fx_add(fx_neg(half_b), sq));
    lemma_fx_div_monotone(fx_sub(fx_neg(half_b), sq), fx_add(fx_neg(half_b), sq), a);
}

/// Narrowing the far end of the range can only discard hits beyond it:
/// a hit found under the narrowed range is exactly the hit of the wider
/// range, and a ray that hits only under the wider range hits beyond the
/// narrowed end.
pub proof fn lemma_sphere_hit_narrow(s: Sphere, ray: Ray, t_min: int, c: int, t_max: int)
    requires
        c <= t_max,
    ensures
        sphere_hit_v(s, ray, t_min, c).is_hit ==> sphere_hit_v(s, ray, t_min, t_max)
            == sphere_hit_v(s, ray, t_min, c),
        !sphere_hit_v(s, ray, t_min, c).is_hit && sphere_hit_v(s, ray, t_min, t_max).is_hit
            ==> sphere_hit_v(s, ray, t_min, t_max).t > c,
{
    let a = v3_lsq(ray.dir@);
    if s.radius@ != 0 && a > 0 && sphere_disc_v(s, ray) >= 0 {
        lemma_roots_ordered(s, ray);
    }
}

} // verus!
